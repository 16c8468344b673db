use vstd::prelude::*;
use crate::display::{draw, draw_collides, frame_shaped, lemma_draw_shaped};
use crate::instructions::Instruction;
use crate::parser::decode;

verus! {

/// Bytes of addressable memory.
pub const MEMORY_SIZE: usize = 4096;

/// Address at which a program image is loaded and execution starts.
pub const PROGRAM_START: u16 = 0x200;

/// Return addresses that the call stack can hold.
pub const STACK_CAPACITY: usize = 16;

/// Index of the register that receives carry, borrow and collision flags.
pub const FLAG_REGISTER: usize = 15;

/// Why an instruction could not be carried out. The machine is left as it
/// was; whether to halt is up to the caller.
#[derive(Debug, Clone, Copy, PartialEq, Eq)]
pub enum ExecutionError {
    /// A return with no call outstanding.
    StackUnderflow,
    /// A call with the stack at capacity.
    StackOverflow,
    /// A fetch, a memory operand or a counter outside the address space.
    MemoryOutOfBounds,
    /// A register operand above fifteen.
    InvalidRegisterIndex,
}

/// The machine as a mathematical value: everything an instruction can read
/// or change, except the random generator.
pub struct MachineState {
    pub registers: Seq<u8>,
    pub index: u16,
    pub delay_timer: u8,
    pub sound_timer: u8,
    pub counter: u16,
    pub stack: Seq<u16>,
    pub memory: Seq<u8>,
    pub frame: Seq<Seq<u8>>,
    pub key: Option<u8>,
}

/// The outcome of one instruction.
pub type Step = Result<MachineState, ExecutionError>;

/// Whether an operation did what `step` says: on success the machine is in
/// the next state, on failure it reports the error and stays as it was.
pub open spec fn carried_out(
    before: MachineState,
    step: Step,
    after: MachineState,
    result: Result<(), ExecutionError>,
) -> bool {
    match step {
        Ok(next) => result is Ok && after == next,
        Err(error) => result == Err::<(), ExecutionError>(error) && after == before,
    }
}

/// Whether a tick did what `fetch` and `step` say, `random` being the byte
/// that the generator yielded: on success the fetched instruction is
/// returned and the machine is in the next state, on failure the error is
/// returned and the machine stays as it was.
pub open spec fn ticked(
    before: MachineState,
    random: u8,
    after: MachineState,
    result: Result<Instruction, ExecutionError>,
) -> bool {
    match before.fetch() {
        Ok(instruction) => match before.step(instruction, random) {
            Ok(next) => result == Ok::<Instruction, ExecutionError>(instruction) && after == next,
            Err(error) => result == Err::<Instruction, ExecutionError>(error) && after == before,
        },
        Err(error) => result == Err::<Instruction, ExecutionError>(error) && after == before,
    }
}

/// A frame with every pixel dark.
pub open spec fn blank_frame() -> Seq<Seq<u8>> {
    Seq::new(32, |r: int| Seq::new(8, |c: int| 0u8))
}

/// Hundreds, tens and units of `n`, each taken modulo ten.
pub open spec fn decimal_digits(n: int) -> (u8, u8, u8) {
    (((n / 100) % 10) as u8, ((n / 10) % 10) as u8, (n % 10) as u8)
}

/// The machine right after a program image has been loaded.
pub open spec fn initial_state(program: Seq<u8>) -> MachineState {
    MachineState {
        registers: Seq::new(16, |i: int| 0u8),
        index: 0,
        delay_timer: 0,
        sound_timer: 0,
        counter: PROGRAM_START,
        stack: Seq::empty(),
        memory: Seq::new(
            4096,
            |a: int|
                if 0x200 <= a < 0x200 + program.len() {
                    program[a - 0x200]
                } else {
                    0u8
                },
        ),
        frame: blank_frame(),
        key: None,
    }
}

impl MachineState {
    /// The shape that every operation keeps.
    pub open spec fn well_formed(self) -> bool {
        &&& self.registers.len() == 16
        &&& self.stack.len() <= STACK_CAPACITY
        &&& self.memory.len() == MEMORY_SIZE
        &&& frame_shaped(self.frame)
        &&& (self.key matches Some(k) ==> k < 16)
    }

    /// The instruction at the counter, if both of its bytes lie in memory.
    pub open spec fn fetch(self) -> Result<Instruction, ExecutionError> {
        if self.counter + 1 < MEMORY_SIZE {
            Ok(decode(self.memory[self.counter as int], self.memory[self.counter + 1]))
        } else {
            Err(ExecutionError::MemoryOutOfBounds)
        }
    }

    /// The value of register `x`.
    pub open spec fn register(self, x: u8) -> u8 {
        self.registers[x as int]
    }

    /// The state with the counter moved `instructions` instruction widths
    /// on, or an error if the counter cannot hold the new value.
    pub open spec fn advance(self, instructions: int) -> Step {
        if self.counter + 2 * instructions <= u16::MAX {
            Ok(MachineState { counter: (self.counter + 2 * instructions) as u16, ..self })
        } else {
            Err(ExecutionError::MemoryOutOfBounds)
        }
    }

    /// Steps over the next instruction if `condition` holds, else on to it.
    pub open spec fn skip_if(self, condition: bool) -> Step {
        self.advance(if condition { 2 } else { 1 })
    }

    /// The state with `value` in register `x`.
    pub open spec fn with_register(self, x: u8, value: u8) -> MachineState {
        MachineState { registers: self.registers.update(x as int, value), ..self }
    }

    /// The state after an operation that sets the flag: the flag register
    /// receives `flag` as 0 or 1, then register `x` receives `value`. When
    /// `x` is the flag register itself, `value` is what remains.
    pub open spec fn with_flagged(self, x: u8, value: u8, flag: bool) -> MachineState {
        MachineState {
            registers: self.registers.update(FLAG_REGISTER as int, if flag { 1u8 } else { 0u8 })
                .update(x as int, value),
            ..self
        }
    }

    /// The `count` bytes of memory from the index register on.
    pub open spec fn at_index(self, count: int) -> Seq<u8> {
        Seq::new(count as nat, |k: int| self.memory[self.index + k])
    }

    /// Whether the `count` bytes from the index register on lie in memory.
    pub open spec fn index_reaches(self, count: int) -> bool {
        count > 0 ==> self.index + count <= MEMORY_SIZE
    }

    /// By how much a shift instruction shifts: by one, or by the value of
    /// the register it names.
    pub open spec fn shift_amount(self, amount: Option<u8>) -> u8 {
        match amount {
            Some(y) => self.register(y),
            None => 1,
        }
    }

    /// The arithmetic and logic group: what it leaves in the registers.
    pub open spec fn compute(self, instruction: Instruction) -> MachineState {
        match instruction {
            Instruction::SetValue(x, value) => self.with_register(x, value),
            Instruction::Add(x, value) => self.with_register(
                x,
                ((self.register(x) + value) % 256) as u8,
            ),
            Instruction::SetReg(x, y) => self.with_register(x, self.register(y)),
            Instruction::Or(x, y) => self.with_register(x, self.register(x) | self.register(y)),
            Instruction::And(x, y) => self.with_register(x, self.register(x) & self.register(y)),
            Instruction::Xor(x, y) => self.with_register(x, self.register(x) ^ self.register(y)),
            Instruction::AddReg(x, y) => self.with_flagged(
                x,
                ((self.register(x) + self.register(y)) % 256) as u8,
                self.register(x) + self.register(y) > 255,
            ),
            Instruction::SubReg(x, y) => self.with_flagged(
                x,
                ((self.register(x) - self.register(y)) % 256) as u8,
                self.register(x) > self.register(y),
            ),
            Instruction::SubN(x, y) => self.with_flagged(
                x,
                ((self.register(y) - self.register(x)) % 256) as u8,
                self.register(y) > self.register(x),
            ),
            Instruction::ShiftRight(x, amount) => self.with_flagged(
                x,
                self.register(x) >> self.shift_amount(amount),
                self.register(x) % 2 == 1,
            ),
            Instruction::ShiftLeft(x, _) => self.with_flagged(
                x,
                ((self.register(x) * 2) % 256) as u8,
                self.register(x) >= 128,
            ),
            _ => self,
        }
    }

    /// The timer, key and index group: what it leaves in the machine and
    /// whether the counter moves on.
    pub open spec fn transfer(self, instruction: Instruction) -> Step {
        match instruction {
            Instruction::SetDelayTimer(x) => self.with_register(x, self.delay_timer).advance(1),
            Instruction::WaitForKey(x) => match self.key {
                Some(k) => self.with_register(x, k).advance(1),
                None => Ok(self),
            },
            Instruction::SetDelayTimerReg(x) => MachineState {
                delay_timer: self.register(x),
                ..self
            }.advance(1),
            Instruction::SetSoundTimerReg(x) => MachineState {
                sound_timer: self.register(x),
                ..self
            }.advance(1),
            Instruction::AddToI(x) => MachineState {
                index: ((self.index + self.register(x)) % 65536) as u16,
                ..self
            }.advance(1),
            Instruction::SetSpriteLocation(x) => MachineState {
                index: self.register(x) as u16,
                ..self
            }.advance(1),
            Instruction::SetI(address) => MachineState { index: address, ..self }.advance(1),
            _ => Ok(self),
        }
    }

    /// The memory group, each after its bounds check.
    pub open spec fn access(self, instruction: Instruction) -> Step {
        match instruction {
            Instruction::StoreBCD(x) => if self.index_reaches(3) {
                let digits = decimal_digits(self.register(x) as int);
                MachineState {
                    memory: self.memory.update(self.index as int, digits.0).update(
                        self.index + 1,
                        digits.1,
                    ).update(self.index + 2, digits.2),
                    ..self
                }.advance(1)
            } else {
                Err(ExecutionError::MemoryOutOfBounds)
            },
            Instruction::StoreRegRange(x) => if self.index_reaches(x + 1) {
                MachineState {
                    memory: Seq::new(
                        4096,
                        |a: int|
                            if self.index <= a <= self.index + x {
                                self.registers[a - self.index]
                            } else {
                                self.memory[a]
                            },
                    ),
                    ..self
                }.advance(1)
            } else {
                Err(ExecutionError::MemoryOutOfBounds)
            },
            Instruction::LoadRegRange(x) => if self.index_reaches(x + 1) {
                MachineState {
                    registers: Seq::new(
                        16,
                        |i: int|
                            if i <= x {
                                self.memory[self.index + i]
                            } else {
                                self.registers[i]
                            },
                    ),
                    ..self
                }.advance(1)
            } else {
                Err(ExecutionError::MemoryOutOfBounds)
            },
            Instruction::Display(x, y, height) => if self.index_reaches(height as int) {
                let sprite = self.at_index(height as int);
                let collision = draw_collides(
                    self.frame,
                    self.register(x),
                    self.register(y),
                    sprite,
                );
                MachineState {
                    frame: draw(self.frame, self.register(x), self.register(y), sprite),
                    registers: self.registers.update(
                        FLAG_REGISTER as int,
                        if collision { 1u8 } else { 0u8 },
                    ),
                    ..self
                }.advance(1)
            } else {
                Err(ExecutionError::MemoryOutOfBounds)
            },
            _ => Ok(self),
        }
    }

    /// The control group: jumps, calls, returns and skips.
    pub open spec fn branch(self, instruction: Instruction) -> Step {
        match instruction {
            Instruction::Return => if self.stack.len() == 0 {
                Err(ExecutionError::StackUnderflow)
            } else {
                Ok(MachineState { counter: self.stack.last(), stack: self.stack.drop_last(), ..self })
            },
            Instruction::Jump(address) => Ok(MachineState { counter: address, ..self }),
            Instruction::Call(address) => if self.stack.len() >= STACK_CAPACITY {
                Err(ExecutionError::StackOverflow)
            } else {
                Ok(MachineState { counter: address, stack: self.stack.push(self.counter), ..self })
            },
            Instruction::JumpToPlusV0(address) => if address + self.register(0) <= u16::MAX {
                Ok(MachineState { counter: (address + self.register(0)) as u16, ..self })
            } else {
                Err(ExecutionError::MemoryOutOfBounds)
            },
            Instruction::SkipIfEqual(x, value) => self.skip_if(self.register(x) == value),
            Instruction::SkipIfNotEqual(x, value) => self.skip_if(self.register(x) != value),
            Instruction::SkipIfEqualReg(x, y) => self.skip_if(self.register(x) == self.register(y)),
            Instruction::SkipIfNotEqualReg(x, y) => self.skip_if(
                self.register(x) != self.register(y),
            ),
            Instruction::SkipIfKeyPressed(x) => self.skip_if(self.key == Some(self.register(x))),
            Instruction::SkipIfKeyNotPressed(x) => self.skip_if(
                self.key != Some(self.register(x)),
            ),
            _ => Ok(self),
        }
    }

    /// What one instruction does to the machine. `random` is the byte that
    /// the generator yields for this instruction; only `SetRandom` reads it.
    ///
    /// An error leaves no state behind: the machine stays as it was.
    pub open spec fn step(self, instruction: Instruction, random: u8) -> Step {
        if !instruction.registers_in_range() {
            Err(ExecutionError::InvalidRegisterIndex)
        } else {
            match instruction {
                Instruction::Sys(_) | Instruction::Data(_) => self.advance(1),
                Instruction::ClearScreen => MachineState { frame: blank_frame(), ..self }.advance(1),
                Instruction::SetRandom(x, mask) => self.with_register(x, random & mask).advance(1),
                Instruction::SetValue(_, _)
                | Instruction::Add(_, _)
                | Instruction::SetReg(_, _)
                | Instruction::Or(_, _)
                | Instruction::And(_, _)
                | Instruction::Xor(_, _)
                | Instruction::AddReg(_, _)
                | Instruction::SubReg(_, _)
                | Instruction::SubN(_, _)
                | Instruction::ShiftRight(_, _)
                | Instruction::ShiftLeft(_, _) => self.compute(instruction).advance(1),
                Instruction::SetDelayTimer(_)
                | Instruction::WaitForKey(_)
                | Instruction::SetDelayTimerReg(_)
                | Instruction::SetSoundTimerReg(_)
                | Instruction::AddToI(_)
                | Instruction::SetSpriteLocation(_)
                | Instruction::SetI(_) => self.transfer(instruction),
                Instruction::StoreBCD(_)
                | Instruction::StoreRegRange(_)
                | Instruction::LoadRegRange(_)
                | Instruction::Display(_, _, _) => self.access(instruction),
                Instruction::Return
                | Instruction::Jump(_)
                | Instruction::Call(_)
                | Instruction::JumpToPlusV0(_)
                | Instruction::SkipIfEqual(_, _)
                | Instruction::SkipIfNotEqual(_, _)
                | Instruction::SkipIfEqualReg(_, _)
                | Instruction::SkipIfNotEqualReg(_, _)
                | Instruction::SkipIfKeyPressed(_)
                | Instruction::SkipIfKeyNotPressed(_) => self.branch(instruction),
            }
        }
    }
}

/// Every instruction keeps the machine well formed.
pub proof fn lemma_step_well_formed(state: MachineState, instruction: Instruction, random: u8)
    requires
        state.well_formed(),
    ensures
        state.step(instruction, random) matches Ok(next) ==> next.well_formed(),
{
    if let Instruction::Display(x, y, height) = instruction {
        lemma_draw_shaped(
            state.frame,
            state.register(x),
            state.register(y),
            state.at_index(height as int),
        );
    }
}

/// Only `SetRandom` reads the random byte: every other instruction has the
/// same outcome whatever the generator yields.
pub proof fn lemma_random_only_in_set_random(
    state: MachineState,
    instruction: Instruction,
    first: u8,
    second: u8,
)
    requires
        !(instruction is SetRandom),
    ensures
        state.step(instruction, first) == state.step(instruction, second),
{
}

} // verus!
