use vstd::prelude::*;
use crate::instructions::Instruction;
use crate::parser::lemma_decoded_operands_in_range;
use crate::state::{blank_frame, ExecutionError, MachineState, FLAG_REGISTER, STACK_CAPACITY};

verus! {

/// Add with carry: register `x` receives the sum modulo 256, and the flag
/// register is 1 exactly when the sum is above 255. When `x` is the flag
/// register itself, the sum is what it holds afterwards.
pub proof fn lemma_add_with_carry(state: MachineState, x: u8, y: u8, random: u8)
    requires
        state.well_formed(),
        x < 16,
        y < 16,
    ensures
        state.step(Instruction::AddReg(x, y), random) == state.compute(
            Instruction::AddReg(x, y),
        ).advance(1),
        ({
            let a = state.register(x);
            let b = state.register(y);
            let after = state.compute(Instruction::AddReg(x, y));
            &&& after.register(x) == (a + b) % 256
            &&& x != FLAG_REGISTER ==> after.register(15) == (if a + b > 255 {
                1u8
            } else {
                0u8
            })
            &&& x != FLAG_REGISTER ==> a + b == 256 * after.register(15) + after.register(x)
            &&& forall|r: int|
                0 <= r < 16 && r != x && r != FLAG_REGISTER ==> after.registers[r]
                    == state.registers[r]
        }),
{
}

/// Subtract with borrow: register `x` receives `Vx - Vy` modulo 256, and
/// the flag register is 1 exactly when `Vx > Vy`. When `x` is the flag
/// register itself, the difference is what it holds afterwards.
pub proof fn lemma_sub_with_borrow(state: MachineState, x: u8, y: u8, random: u8)
    requires
        state.well_formed(),
        x < 16,
        y < 16,
    ensures
        state.step(Instruction::SubReg(x, y), random) == state.compute(
            Instruction::SubReg(x, y),
        ).advance(1),
        ({
            let a = state.register(x);
            let b = state.register(y);
            let after = state.compute(Instruction::SubReg(x, y));
            &&& after.register(x) == (a - b) % 256
            &&& after.register(x) == a - b + (if a < b {
                256int
            } else {
                0int
            })
            &&& x != FLAG_REGISTER ==> after.register(15) == (if a > b {
                1u8
            } else {
                0u8
            })
            &&& forall|r: int|
                0 <= r < 16 && r != x && r != FLAG_REGISTER ==> after.registers[r]
                    == state.registers[r]
        }),
{
}

/// Reverse subtract: register `x` receives `Vy - Vx` modulo 256, and the
/// flag register is 1 exactly when `Vy > Vx`. When `x` is the flag register
/// itself, the difference is what it holds afterwards.
pub proof fn lemma_reverse_sub(state: MachineState, x: u8, y: u8, random: u8)
    requires
        state.well_formed(),
        x < 16,
        y < 16,
    ensures
        state.step(Instruction::SubN(x, y), random) == state.compute(
            Instruction::SubN(x, y),
        ).advance(1),
        ({
            let a = state.register(x);
            let b = state.register(y);
            let after = state.compute(Instruction::SubN(x, y));
            &&& after.register(x) == (b - a) % 256
            &&& after.register(x) == b - a + (if b < a {
                256int
            } else {
                0int
            })
            &&& x != FLAG_REGISTER ==> after.register(15) == (if b > a {
                1u8
            } else {
                0u8
            })
            &&& forall|r: int|
                0 <= r < 16 && r != x && r != FLAG_REGISTER ==> after.registers[r]
                    == state.registers[r]
        }),
{
}

/// Shift right: the flag register receives the lowest bit of `Vx`, and
/// `Vx` is shifted by one, or by the value of the register that the
/// instruction names. Shifted by one, the flag is the bit that fell out:
/// the old value is twice the new one plus the flag.
pub proof fn lemma_shift_right(state: MachineState, x: u8, amount: Option<u8>, random: u8)
    requires
        state.well_formed(),
        x < 16,
        amount matches Some(y) ==> y < 16,
    ensures
        state.step(Instruction::ShiftRight(x, amount), random) == state.compute(
            Instruction::ShiftRight(x, amount),
        ).advance(1),
        ({
            let a = state.register(x);
            let by = state.shift_amount(amount);
            let after = state.compute(Instruction::ShiftRight(x, amount));
            &&& x != FLAG_REGISTER ==> after.register(15) == a % 2
            &&& by == 1 ==> after.register(x) == a / 2
            &&& by >= 8 ==> after.register(x) == 0
            &&& x != FLAG_REGISTER && by == 1 ==> a == 2 * after.register(x) + after.register(15)
        }),
{
    let a = state.register(x);
    let by = state.shift_amount(amount);
    assert(by == 1 ==> a >> by == a / 2) by (bit_vector);
    assert(by >= 8 ==> a >> by == 0) by (bit_vector);
}

/// Shift left: the flag register receives the highest bit of `Vx`, and
/// `Vx` is doubled modulo 256. The flag is the bit that fell out: twice the
/// old value is the new one plus 256 times the flag.
pub proof fn lemma_shift_left(state: MachineState, x: u8, amount: Option<u8>, random: u8)
    requires
        state.well_formed(),
        x < 16,
        amount matches Some(y) ==> y < 16,
    ensures
        state.step(Instruction::ShiftLeft(x, amount), random) == state.compute(
            Instruction::ShiftLeft(x, amount),
        ).advance(1),
        ({
            let a = state.register(x);
            let after = state.compute(Instruction::ShiftLeft(x, amount));
            &&& after.register(x) == (2 * a) % 256
            &&& x != FLAG_REGISTER ==> after.register(15) == a / 128
            &&& x != FLAG_REGISTER ==> 2 * a == 256 * after.register(15) + after.register(x)
        }),
{
}

/// A call pushes the counter it was made at and jumps; a return right
/// after it puts the machine back exactly as it was before the call.
pub proof fn lemma_call_then_return(state: MachineState, address: u16, random: u8)
    requires
        state.well_formed(),
        state.stack.len() < STACK_CAPACITY,
    ensures
        state.step(Instruction::Call(address), random) matches Ok(called) && {
            &&& called.counter == address
            &&& called.stack == state.stack.push(state.counter)
            &&& called.step(Instruction::Return, random) == Ok::<MachineState, ExecutionError>(
                state,
            )
        },
{
    let called = state.step(Instruction::Call(address), random)->Ok_0;
    assert(called.stack.drop_last() =~= state.stack);
}

/// A call with the stack at capacity fails and a return with the stack
/// empty fails, each with its own error.
pub proof fn lemma_stack_limits(state: MachineState, address: u16, random: u8)
    requires
        state.well_formed(),
    ensures
        state.stack.len() == STACK_CAPACITY ==> state.step(Instruction::Call(address), random)
            == Err::<MachineState, ExecutionError>(ExecutionError::StackOverflow),
        state.stack.len() == 0 ==> state.step(Instruction::Return, random) == Err::<
            MachineState,
            ExecutionError,
        >(ExecutionError::StackUnderflow),
{
}

/// An instruction that was fetched from memory never fails for a register
/// operand: the decoder cuts each one from four bits.
pub proof fn lemma_fetched_registers_valid(state: MachineState, random: u8)
    requires
        state.well_formed(),
    ensures
        state.fetch() matches Ok(instruction) ==> state.step(instruction, random) != Err::<
            MachineState,
            ExecutionError,
        >(ExecutionError::InvalidRegisterIndex),
{
    if state.fetch() is Ok {
        lemma_decoded_operands_in_range(
            state.memory[state.counter as int],
            state.memory[state.counter + 1],
        );
    }
}

/// No instruction counts a timer down: a timer changes only when the
/// instruction that sets it from a register is carried out.
pub proof fn lemma_timers_kept(state: MachineState, instruction: Instruction, random: u8)
    ensures
        state.step(instruction, random) matches Ok(next) ==> {
            &&& !(instruction is SetDelayTimerReg) ==> next.delay_timer == state.delay_timer
            &&& !(instruction is SetSoundTimerReg) ==> next.sound_timer == state.sound_timer
        },
{
}

/// The index register changes only under the three instructions that set
/// it; the memory transfers and the drawing that start from it leave it
/// where it was.
pub proof fn lemma_index_kept(state: MachineState, instruction: Instruction, random: u8)
    requires
        !(instruction is SetI || instruction is AddToI || instruction is SetSpriteLocation),
    ensures
        state.step(instruction, random) matches Ok(next) ==> next.index == state.index,
{
}

/// Whether an instruction moves the counter to a place of its own choosing
/// rather than one or two instructions on.
pub open spec fn transfers_control(instruction: Instruction) -> bool {
    ||| instruction is Jump
    ||| instruction is Call
    ||| instruction is Return
    ||| instruction is JumpToPlusV0
}

/// Moving on by whole instructions keeps an even counter even.
proof fn lemma_advance_even(state: MachineState, instructions: int)
    requires
        state.counter % 2 == 0,
        0 <= instructions <= 2,
    ensures
        state.advance(instructions) matches Ok(next) ==> next.counter % 2 == 0,
{
}

/// An even counter stays even under every instruction that does not
/// transfer control.
pub proof fn lemma_counter_stays_even(state: MachineState, instruction: Instruction, random: u8)
    requires
        state.counter % 2 == 0,
        !transfers_control(instruction),
    ensures
        state.step(instruction, random) matches Ok(next) ==> next.counter % 2 == 0,
{
    if instruction.registers_in_range() {
        match instruction {
            Instruction::Sys(_) | Instruction::Data(_) => {
                lemma_advance_even(state, 1);
            },
            Instruction::ClearScreen => {
                lemma_advance_even(MachineState { frame: blank_frame(), ..state }, 1);
            },
            Instruction::SetRandom(x, mask) => {
                lemma_advance_even(state.with_register(x, random & mask), 1);
            },
            Instruction::SetValue(_, _)
            | Instruction::Add(_, _)
            | Instruction::SetReg(_, _)
            | Instruction::Or(_, _)
            | Instruction::And(_, _)
            | Instruction::Xor(_, _)
            | Instruction::AddReg(_, _)
            | Instruction::SubReg(_, _)
            | Instruction::SubN(_, _)
            | Instruction::ShiftRight(_, _)
            | Instruction::ShiftLeft(_, _) => {
                assert(state.compute(instruction).counter == state.counter);
                lemma_advance_even(state.compute(instruction), 1);
            },
            Instruction::SetDelayTimer(_)
            | Instruction::WaitForKey(_)
            | Instruction::SetDelayTimerReg(_)
            | Instruction::SetSoundTimerReg(_)
            | Instruction::AddToI(_)
            | Instruction::SetSpriteLocation(_)
            | Instruction::SetI(_) => {
                lemma_transfer_even(state, instruction);
            },
            Instruction::StoreBCD(_)
            | Instruction::StoreRegRange(_)
            | Instruction::LoadRegRange(_)
            | Instruction::Display(_, _, _) => {
                lemma_access_even(state, instruction);
            },
            _ => {
                lemma_advance_even(state, 1);
                lemma_advance_even(state, 2);
            },
        }
    }
}

/// The timer, key and index group keeps an even counter even.
proof fn lemma_transfer_even(state: MachineState, instruction: Instruction)
    requires
        state.counter % 2 == 0,
    ensures
        state.transfer(instruction) matches Ok(next) ==> next.counter % 2 == 0,
{
    if let Ok(next) = state.transfer(instruction) {
        let moved = MachineState { counter: state.counter, ..next };
        lemma_advance_even(moved, 1);
        assert(next.counter == state.counter || Ok::<MachineState, ExecutionError>(next)
            == moved.advance(1));
    }
}

/// The memory group keeps an even counter even.
proof fn lemma_access_even(state: MachineState, instruction: Instruction)
    requires
        state.counter % 2 == 0,
    ensures
        state.access(instruction) matches Ok(next) ==> next.counter % 2 == 0,
{
    if let Ok(next) = state.access(instruction) {
        let moved = MachineState { counter: state.counter, ..next };
        lemma_advance_even(moved, 1);
        assert(next.counter == state.counter || Ok::<MachineState, ExecutionError>(next)
            == moved.advance(1));
    }
}

} // verus!
