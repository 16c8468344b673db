use chip8::context::{dec_to_bcd, Context};
use chip8::display::proccess_graphics_row;
use chip8::instructions::Instruction;
use chip8::state::ExecutionError;

#[test]
fn set_i_register_in_context() {
    let test_data = [0x00, 0xE0, 0xA0, 0x12, 0x00, 0xE0];
    let mut context = Context::new(&test_data, 1);
    context.tick().unwrap();
    context.tick().unwrap();

    assert_eq!(context.i_register, 0x012);
}

#[test]
fn test_graphics_bitmasking() {
    // Screen width: 64px
    let mut graphics_buffer = vec![
        vec![0x0, 0x0, 0x0, 0x0, 0x0, 0x0, 0x0, 0x0],
        vec![0x0, 0x0, 0x0, 0x0, 0x0, 0x0, 0x0, 0x0],
        vec![0x0, 0x0, 0x0, 0x0, 0x0, 0x0, 0x0, 0x0],
        vec![0x0, 0x0, 0x0, 0x0, 0x0, 0x0, 0x0, 0x0],
        vec![0x0, 0x0, 0x0, 0x0, 0x0, 0x0, 0x0, 0x0],
    ];
    let x: u8 = 0x7;
    let y: u8 = 0x0;

    let pixels = [0x81, 0x81, 0xFF, 0x81, 0x81];

    for (i, pixel) in pixels.iter().enumerate() {
        let pixel_row = &mut graphics_buffer[(y as usize) + i];
        let collision = proccess_graphics_row(pixel_row, x, *pixel);
        assert!(!collision);
    }
    graphics_buffer.iter().for_each(|row| {
        println!(
            "{:08b} {:08b} {:08b} {:08b} {:08b} {:08b} {:08b} {:08b}",
            row[0], row[1], row[2], row[3], row[4], row[5], row[6], row[7]
        );
    });
    assert_eq!(graphics_buffer[0], vec![0x01, 0x02, 0, 0, 0, 0, 0, 0]);
    assert_eq!(graphics_buffer[1], vec![0x01, 0x02, 0, 0, 0, 0, 0, 0]);
    assert_eq!(graphics_buffer[2], vec![0x01, 0xFE, 0, 0, 0, 0, 0, 0]);
    assert_eq!(graphics_buffer[3], vec![0x01, 0x02, 0, 0, 0, 0, 0, 0]);
    assert_eq!(graphics_buffer[4], vec![0x01, 0x02, 0, 0, 0, 0, 0, 0]);
}

#[test]
fn test_context_display_instruction() {
    let test_data = [
        0x00, 0xE0, 0xA2, 0x06, 0xD0, 0x05, 0x81, 0x81, 0xFF, 0x81, 0x81, 0x00,
    ];
    let mut context = Context::new(&test_data, 1);
    context.tick().unwrap();
    context.tick().unwrap();

    assert_eq!(context.i_register, 0x206);

    let drawn = context.tick();
    assert_eq!(drawn, Ok(Instruction::Display(0, 0, 5)));

    context.graphics_buffer.iter().for_each(|row| {
        println!(
            "{:08b} {:08b} {:08b} {:08b} {:08b} {:08b} {:08b} {:08b}",
            row[0], row[1], row[2], row[3], row[4], row[5], row[6], row[7]
        );
    });

    assert_eq!(context.registers[0xF], 0x0);

    let sprite = [0x81, 0x81, 0xFF, 0x81, 0x81];
    for (r, row) in context.graphics_buffer.iter().enumerate() {
        let first = if r < 5 { sprite[r] } else { 0 };
        assert_eq!(row, &vec![first, 0, 0, 0, 0, 0, 0, 0]);
    }
    assert_eq!(context.graphics_buffer.len(), 32);
    assert_eq!(context.program_counter, 0x206);
}

// Fuzzy testing could be useful for this
#[test]
fn test_bcd_conversions() {
    let n = 134;
    let result = dec_to_bcd(n);
    assert_eq!(result, (1, 3, 4));

    let n = 6893;
    let result = dec_to_bcd(n);
    assert_eq!(result, (8, 9, 3));

    let n = 1;
    let result = dec_to_bcd(n);
    assert_eq!(result, (0, 0, 1));
}

#[test]
fn bcd_of_every_register_value() {
    assert_eq!(dec_to_bcd(255), (2, 5, 5));
    assert_eq!(dec_to_bcd(0), (0, 0, 0));
    for n in 0..=255u16 {
        let (h, t, u) = dec_to_bcd(n);
        assert!(h < 10 && t < 10 && u < 10);
        assert_eq!(100 * h as u16 + 10 * t as u16 + u as u16, n);
    }
}

fn blank() -> Context {
    Context::new(&[], 7)
}

#[test]
fn new_machine_is_loaded_and_zeroed() {
    let image = [0x12, 0x34, 0x56];
    let context = Context::new(&image, 3);
    assert_eq!(context.registers, [0u8; 16]);
    assert_eq!(context.i_register, 0);
    assert_eq!(context.delay_timer, 0);
    assert_eq!(context.sound_timer, 0);
    assert_eq!(context.program_counter, 0x200);
    assert!(context.stack_pointer.is_empty());
    assert_eq!(context.keyboard_input, None);
    assert_eq!(context.memory_map.len(), 4096);
    assert!(context.memory_map[..0x200].iter().all(|b| *b == 0));
    assert_eq!(&context.memory_map[0x200..0x203], &image);
    assert!(context.memory_map[0x203..].iter().all(|b| *b == 0));
    assert_eq!(context.graphics_buffer, vec![vec![0u8; 8]; 32]);
}

#[test]
fn new_machine_takes_the_largest_image() {
    let image = vec![0xAB; 4096 - 0x200];
    let context = Context::new(&image, 3);
    assert_eq!(context.memory_map.len(), 4096);
    assert_eq!(context.memory_map[0x1FF], 0);
    assert_eq!(context.memory_map[0x200], 0xAB);
    assert_eq!(context.memory_map[4095], 0xAB);
}

#[test]
fn add_with_carry_for_every_pair() {
    let mut context = blank();
    for a in 0..=255u16 {
        for b in 0..=255u16 {
            context.registers[3] = a as u8;
            context.registers[4] = b as u8;
            context.program_counter = 0x200;
            assert_eq!(context.execute(Instruction::AddReg(3, 4), 0), Ok(()));
            assert_eq!(context.registers[3], ((a + b) % 256) as u8);
            assert_eq!(context.registers[15], (a + b > 255) as u8);
            assert_eq!(context.registers[4], b as u8);
            assert_eq!(context.program_counter, 0x202);
        }
    }
}

#[test]
fn sub_with_borrow_for_every_pair() {
    let mut context = blank();
    for a in 0..=255u8 {
        for b in 0..=255u8 {
            context.registers[3] = a;
            context.registers[4] = b;
            context.program_counter = 0x200;
            assert_eq!(context.execute(Instruction::SubReg(3, 4), 0), Ok(()));
            assert_eq!(context.registers[3], a.wrapping_sub(b));
            assert_eq!(context.registers[15], (a > b) as u8);
            assert_eq!(context.registers[4], b);
        }
    }
}

#[test]
fn reverse_sub_for_every_pair() {
    let mut context = blank();
    for a in 0..=255u8 {
        for b in 0..=255u8 {
            context.registers[3] = a;
            context.registers[4] = b;
            context.program_counter = 0x200;
            assert_eq!(context.execute(Instruction::SubN(3, 4), 0), Ok(()));
            assert_eq!(context.registers[3], b.wrapping_sub(a));
            assert_eq!(context.registers[15], (b > a) as u8);
            assert_eq!(context.registers[4], b);
        }
    }
}

#[test]
fn subtraction_reads_its_operands_before_the_flag_is_written() {
    let mut context = blank();
    context.registers[2] = 10;
    context.registers[15] = 3;
    assert_eq!(context.execute(Instruction::SubReg(2, 15), 0), Ok(()));
    assert_eq!(context.registers[2], 7);
    assert_eq!(context.registers[15], 1);
}

#[test]
fn result_wins_when_the_target_is_the_flag_register() {
    let mut context = blank();
    context.registers[15] = 200;
    context.registers[1] = 100;
    assert_eq!(context.execute(Instruction::AddReg(15, 1), 0), Ok(()));
    assert_eq!(context.registers[15], 44);
}

#[test]
fn shifts_for_every_value() {
    let mut context = blank();
    for a in 0..=255u8 {
        context.registers[5] = a;
        context.program_counter = 0x200;
        assert_eq!(context.execute(Instruction::ShiftRight(5, None), 0), Ok(()));
        assert_eq!(context.registers[5], a >> 1);
        assert_eq!(context.registers[15], a & 1);

        context.registers[5] = a;
        context.registers[6] = 1;
        assert_eq!(context.execute(Instruction::ShiftRight(5, Some(6)), 0), Ok(()));
        assert_eq!(context.registers[5], a / 2);
        assert_eq!(context.registers[15], a % 2);

        context.registers[5] = a;
        context.program_counter = 0x200;
        assert_eq!(context.execute(Instruction::ShiftLeft(5, Some(6)), 0), Ok(()));
        assert_eq!(context.registers[5], ((a as u16 * 2) % 256) as u8);
        assert_eq!(context.registers[15], a >> 7);
    }
}

#[test]
fn shift_right_by_a_register_value() {
    let mut context = blank();
    context.registers[5] = 0b1011_0101;
    context.registers[6] = 3;
    assert_eq!(context.execute(Instruction::ShiftRight(5, Some(6)), 0), Ok(()));
    assert_eq!(context.registers[5], 0b0001_0110);
    assert_eq!(context.registers[15], 1);

    context.registers[5] = 0xFE;
    context.registers[6] = 8;
    assert_eq!(context.execute(Instruction::ShiftRight(5, Some(6)), 0), Ok(()));
    assert_eq!(context.registers[5], 0);
    assert_eq!(context.registers[15], 0);

    context.registers[5] = 0xFF;
    context.registers[6] = 200;
    assert_eq!(context.execute(Instruction::ShiftRight(5, Some(6)), 0), Ok(()));
    assert_eq!(context.registers[5], 0);
    assert_eq!(context.registers[15], 1);
}

#[test]
fn add_immediate_wraps_and_leaves_the_flag() {
    let mut context = blank();
    context.registers[1] = 250;
    context.registers[15] = 9;
    assert_eq!(context.execute(Instruction::Add(1, 10), 0), Ok(()));
    assert_eq!(context.registers[1], 4);
    assert_eq!(context.registers[15], 9);
}

#[test]
fn logic_instructions() {
    let mut context = blank();
    assert_eq!(context.execute(Instruction::SetValue(1, 0b1100), 0), Ok(()));
    assert_eq!(context.execute(Instruction::SetValue(2, 0b1010), 0), Ok(()));
    assert_eq!(context.execute(Instruction::SetReg(3, 1), 0), Ok(()));
    assert_eq!(context.registers[3], 0b1100);
    assert_eq!(context.execute(Instruction::Or(3, 2), 0), Ok(()));
    assert_eq!(context.registers[3], 0b1110);
    assert_eq!(context.execute(Instruction::And(3, 2), 0), Ok(()));
    assert_eq!(context.registers[3], 0b1010);
    assert_eq!(context.execute(Instruction::Xor(3, 1), 0), Ok(()));
    assert_eq!(context.registers[3], 0b0110);
    assert_eq!(context.program_counter, 0x200 + 2 * 6);
}

#[test]
fn call_then_return_restores_the_counter() {
    let mut context = blank();
    context.program_counter = 0x246;
    assert_eq!(context.execute(Instruction::Call(0x300), 0), Ok(()));
    assert_eq!(context.program_counter, 0x300);
    assert_eq!(context.stack_pointer, vec![0x246]);
    assert_eq!(context.execute(Instruction::Return, 0), Ok(()));
    assert_eq!(context.program_counter, 0x246);
    assert!(context.stack_pointer.is_empty());
}

#[test]
fn call_beyond_capacity_is_stack_overflow() {
    let mut context = blank();
    for depth in 0..16u16 {
        assert_eq!(context.execute(Instruction::Call(0x300 + 2 * depth), 0), Ok(()));
    }
    assert_eq!(context.stack_pointer.len(), 16);
    let counter = context.program_counter;
    assert_eq!(
        context.execute(Instruction::Call(0x400), 0),
        Err(ExecutionError::StackOverflow)
    );
    assert_eq!(context.stack_pointer.len(), 16);
    assert_eq!(context.program_counter, counter);
}

#[test]
fn return_on_empty_stack_is_stack_underflow() {
    let mut context = Context::new(&[0x00, 0xEE], 1);
    assert_eq!(context.tick(), Err(ExecutionError::StackUnderflow));
    assert_eq!(context.program_counter, 0x200);
    assert!(context.stack_pointer.is_empty());
}

#[test]
fn fetch_beyond_memory_is_out_of_bounds() {
    let mut context = blank();
    context.program_counter = 4095;
    assert_eq!(context.tick(), Err(ExecutionError::MemoryOutOfBounds));
    assert_eq!(context.program_counter, 4095);
    context.program_counter = 0xFFFF;
    assert_eq!(context.tick(), Err(ExecutionError::MemoryOutOfBounds));
    context.program_counter = 4094;
    assert_eq!(context.tick(), Ok(Instruction::Sys(0)));
    assert_eq!(context.program_counter, 4096);
    assert_eq!(context.tick(), Err(ExecutionError::MemoryOutOfBounds));
}

#[test]
fn register_above_fifteen_is_invalid() {
    let mut context = blank();
    assert_eq!(
        context.execute(Instruction::SetValue(16, 1), 0),
        Err(ExecutionError::InvalidRegisterIndex)
    );
    assert_eq!(
        context.execute(Instruction::AddReg(1, 16), 0),
        Err(ExecutionError::InvalidRegisterIndex)
    );
    assert_eq!(
        context.execute(Instruction::ShiftLeft(1, Some(16)), 0),
        Err(ExecutionError::InvalidRegisterIndex)
    );
    assert_eq!(context.execute(Instruction::ShiftLeft(1, None), 0), Ok(()));
    assert_eq!(context.registers, [0u8; 16]);
    assert_eq!(context.program_counter, 0x202);
}

#[test]
fn skips_move_by_two_instructions_when_they_hold() {
    let mut context = blank();
    context.registers[1] = 5;
    context.registers[2] = 5;
    context.registers[3] = 6;
    let cases = [
        (Instruction::SkipIfEqual(1, 5), true),
        (Instruction::SkipIfEqual(1, 6), false),
        (Instruction::SkipIfNotEqual(1, 5), false),
        (Instruction::SkipIfNotEqual(1, 6), true),
        (Instruction::SkipIfEqualReg(1, 2), true),
        (Instruction::SkipIfEqualReg(1, 3), false),
        (Instruction::SkipIfNotEqualReg(1, 2), false),
        (Instruction::SkipIfNotEqualReg(1, 3), true),
    ];
    for (instruction, holds) in cases {
        context.program_counter = 0x200;
        assert_eq!(context.execute(instruction, 0), Ok(()));
        assert_eq!(context.program_counter, if holds { 0x204 } else { 0x202 });
    }
}

#[test]
fn key_skips_compare_the_key_with_the_register() {
    let mut context = blank();
    context.registers[4] = 0xA;
    let cases = [
        (None, false, true),
        (Some(0xA), true, false),
        (Some(0x3), false, true),
    ];
    for (key, pressed_skips, not_pressed_skips) in cases {
        context.set_key_pressed(key);
        assert_eq!(context.keyboard_input, key);
        context.program_counter = 0x200;
        assert_eq!(context.execute(Instruction::SkipIfKeyPressed(4), 0), Ok(()));
        assert_eq!(context.program_counter, if pressed_skips { 0x204 } else { 0x202 });
        context.program_counter = 0x200;
        assert_eq!(context.execute(Instruction::SkipIfKeyNotPressed(4), 0), Ok(()));
        assert_eq!(context.program_counter, if not_pressed_skips { 0x204 } else { 0x202 });
    }
}

#[test]
fn wait_for_key_holds_the_counter_until_a_key_is_down() {
    let mut context = Context::new(&[0xF3, 0x0A], 1);
    assert_eq!(context.tick(), Ok(Instruction::WaitForKey(3)));
    assert_eq!(context.program_counter, 0x200);
    assert_eq!(context.registers[3], 0);
    context.set_key_pressed(Some(0xC));
    assert_eq!(context.tick(), Ok(Instruction::WaitForKey(3)));
    assert_eq!(context.program_counter, 0x202);
    assert_eq!(context.registers[3], 0xC);
}

#[test]
fn jumps() {
    let mut context = blank();
    assert_eq!(context.execute(Instruction::Jump(0x456), 0), Ok(()));
    assert_eq!(context.program_counter, 0x456);
    context.registers[0] = 0x10;
    assert_eq!(context.execute(Instruction::JumpToPlusV0(0x300), 0), Ok(()));
    assert_eq!(context.program_counter, 0x310);
    context.registers[0] = 0xFF;
    assert_eq!(context.execute(Instruction::JumpToPlusV0(0xFFF), 0), Ok(()));
    assert_eq!(context.program_counter, 0x10FE);
    assert_eq!(context.tick(), Err(ExecutionError::MemoryOutOfBounds));
    assert_eq!(
        context.execute(Instruction::JumpToPlusV0(0xFFFF), 0),
        Err(ExecutionError::MemoryOutOfBounds)
    );
    assert_eq!(context.program_counter, 0x10FE);
}

#[test]
fn timers_and_index() {
    let mut context = blank();
    context.registers[1] = 3;
    assert_eq!(context.execute(Instruction::SetDelayTimerReg(1), 0), Ok(()));
    assert_eq!(context.execute(Instruction::SetSoundTimerReg(1), 0), Ok(()));
    assert_eq!((context.delay_timer, context.sound_timer), (3, 3));
    assert_eq!(context.execute(Instruction::SetDelayTimer(2), 0), Ok(()));
    assert_eq!(context.registers[2], 3);
    assert_eq!(context.execute(Instruction::SetI(0x123), 0), Ok(()));
    assert_eq!(context.i_register, 0x123);
    assert_eq!(context.execute(Instruction::AddToI(1), 0), Ok(()));
    assert_eq!(context.i_register, 0x126);
    context.i_register = 0xFFFF;
    assert_eq!(context.execute(Instruction::AddToI(1), 0), Ok(()));
    assert_eq!(context.i_register, 2);
    context.registers[7] = 0xB;
    assert_eq!(context.execute(Instruction::SetSpriteLocation(7), 0), Ok(()));
    assert_eq!(context.i_register, 0xB);
    assert_eq!((context.delay_timer, context.sound_timer), (3, 3));
}

#[test]
fn ticks_leave_the_timers_and_decrement_stops_at_zero() {
    let mut context = Context::new(&[0x60, 0x02, 0xF0, 0x15, 0x61, 0x01, 0xF1, 0x18, 0x00, 0xE0], 1);
    for _ in 0..5 {
        context.tick().unwrap();
    }
    assert_eq!((context.delay_timer, context.sound_timer), (2, 1));
    context.decrement_timers();
    assert_eq!((context.delay_timer, context.sound_timer), (1, 0));
    context.decrement_timers();
    assert_eq!((context.delay_timer, context.sound_timer), (0, 0));
    context.decrement_timers();
    assert_eq!((context.delay_timer, context.sound_timer), (0, 0));
    assert_eq!(context.program_counter, 0x20A);
}

#[test]
fn store_bcd_writes_three_digits() {
    let mut context = blank();
    context.registers[4] = 134;
    context.i_register = 0x300;
    assert_eq!(context.execute(Instruction::StoreBCD(4), 0), Ok(()));
    assert_eq!(&context.memory_map[0x300..0x303], &[1, 3, 4]);
    assert_eq!(context.i_register, 0x300);

    context.registers[4] = 255;
    context.i_register = 4093;
    assert_eq!(context.execute(Instruction::StoreBCD(4), 0), Ok(()));
    assert_eq!(&context.memory_map[4093..], &[2, 5, 5]);

    context.i_register = 4094;
    let memory = context.memory_map.clone();
    assert_eq!(
        context.execute(Instruction::StoreBCD(4), 0),
        Err(ExecutionError::MemoryOutOfBounds)
    );
    assert_eq!(context.memory_map, memory);
}

#[test]
fn bulk_transfers_move_register_values() {
    let mut context = blank();
    for i in 0..16u8 {
        context.registers[i as usize] = 0xA0 + i;
    }
    context.i_register = 0x400;
    assert_eq!(context.execute(Instruction::StoreRegRange(3), 0), Ok(()));
    assert_eq!(&context.memory_map[0x400..0x405], &[0xA0, 0xA1, 0xA2, 0xA3, 0]);
    assert_eq!(context.i_register, 0x400);

    context.memory_map[0x500] = 9;
    context.memory_map[0x501] = 8;
    context.memory_map[0x502] = 7;
    context.i_register = 0x500;
    assert_eq!(context.execute(Instruction::LoadRegRange(1), 0), Ok(()));
    assert_eq!(&context.registers[..3], &[9, 8, 0xA2]);
    assert_eq!(context.i_register, 0x500);

    context.i_register = 4096 - 16;
    assert_eq!(context.execute(Instruction::StoreRegRange(15), 0), Ok(()));
    assert_eq!(context.memory_map[4095], 0xAF);
    context.i_register = 4096 - 15;
    assert_eq!(
        context.execute(Instruction::StoreRegRange(15), 0),
        Err(ExecutionError::MemoryOutOfBounds)
    );
    assert_eq!(
        context.execute(Instruction::LoadRegRange(15), 0),
        Err(ExecutionError::MemoryOutOfBounds)
    );
    assert_eq!(context.execute(Instruction::LoadRegRange(14), 0), Ok(()));
}

#[test]
fn set_random_masks_the_byte() {
    let mut context = blank();
    assert_eq!(context.execute(Instruction::SetRandom(2, 0x3C), 0xFF), Ok(()));
    assert_eq!(context.registers[2], 0x3C);
    assert_eq!(context.execute(Instruction::SetRandom(2, 0xF0), 0xA5), Ok(()));
    assert_eq!(context.registers[2], 0xA0);
}

#[test]
fn same_seed_and_program_give_the_same_run() {
    let program: Vec<u8> = (0..16u8).flat_map(|x| [0xC0 | x, 0xFF]).collect();
    let mut first = Context::new(&program, 42);
    let mut second = Context::new(&program, 42);
    for _ in 0..16 {
        assert_eq!(first.tick(), second.tick());
    }
    assert_eq!(first.registers, second.registers);
    assert!(first.registers.iter().any(|v| *v != first.registers[0]));
}

#[test]
fn ticked_set_random_stays_under_the_mask() {
    let program: Vec<u8> = (0..16u8).flat_map(|x| [0xC0 | x, 0x0F]).collect();
    let mut context = Context::new(&program, 9);
    for x in 0..16u8 {
        assert_eq!(context.tick(), Ok(Instruction::SetRandom(x, 0x0F)));
    }
    assert!(context.registers.iter().all(|v| *v < 16));
    assert_eq!(context.program_counter, 0x220);
}

#[test]
fn unknown_word_is_returned_and_stepped_over() {
    let mut context = Context::new(&[0x51, 0x23, 0x0F, 0xFF], 1);
    assert_eq!(context.tick(), Ok(Instruction::Data(0x5123)));
    assert_eq!(context.program_counter, 0x202);
    assert_eq!(context.tick(), Ok(Instruction::Sys(0xFFF)));
    assert_eq!(context.program_counter, 0x204);
}

#[test]
fn clear_screen_darkens_every_pixel() {
    let mut context = blank();
    context.graphics_buffer[3][2] = 0xFF;
    context.graphics_buffer[31][7] = 0x01;
    assert_eq!(context.execute(Instruction::ClearScreen, 0), Ok(()));
    assert_eq!(context.graphics_buffer, vec![vec![0u8; 8]; 32]);
}

#[test]
fn draw_twice_clears_and_collides() {
    let mut context = Context::new(&[0x81, 0x81, 0xFF, 0x81, 0x81], 1);
    context.i_register = 0x200;
    context.registers[1] = 7;
    context.registers[2] = 0;
    assert_eq!(context.execute(Instruction::Display(1, 2, 5), 0), Ok(()));
    assert_eq!(context.registers[15], 0);
    assert_eq!(context.graphics_buffer[2], vec![0x01, 0xFE, 0, 0, 0, 0, 0, 0]);
    assert_eq!(context.execute(Instruction::Display(1, 2, 5), 0), Ok(()));
    assert_eq!(context.registers[15], 1);
    assert_eq!(context.graphics_buffer, vec![vec![0u8; 8]; 32]);
}

#[test]
fn draw_wraps_at_the_right_and_bottom_edges() {
    let mut context = Context::new(&[0xFF, 0x0F], 1);
    context.i_register = 0x200;
    context.registers[1] = 60;
    context.registers[2] = 31;
    assert_eq!(context.execute(Instruction::Display(1, 2, 2), 0), Ok(()));
    assert_eq!(context.graphics_buffer[31], vec![0xF0, 0, 0, 0, 0, 0, 0, 0x0F]);
    assert_eq!(context.graphics_buffer[0], vec![0xF0, 0, 0, 0, 0, 0, 0, 0]);
    assert_eq!(context.registers[15], 0);

    let mut wide = Context::new(&[0xFF], 1);
    wide.i_register = 0x200;
    wide.registers[1] = 64 + 4;
    wide.registers[2] = 32 + 1;
    assert_eq!(wide.execute(Instruction::Display(1, 2, 1), 0), Ok(()));
    assert_eq!(wide.graphics_buffer[1], vec![0x0F, 0xF0, 0, 0, 0, 0, 0, 0]);
}

#[test]
fn draw_reads_its_sprite_inside_memory_only() {
    let mut context = blank();
    context.i_register = 4095;
    assert_eq!(context.execute(Instruction::Display(0, 0, 1), 0), Ok(()));
    let frame = context.graphics_buffer.clone();
    assert_eq!(
        context.execute(Instruction::Display(0, 0, 2), 0),
        Err(ExecutionError::MemoryOutOfBounds)
    );
    assert_eq!(context.graphics_buffer, frame);
    context.i_register = 0xFFFF;
    assert_eq!(context.execute(Instruction::Display(0, 0, 0), 0), Ok(()));
    assert_eq!(context.registers[15], 0);
}

#[test]
fn flat_frame_lists_the_rows_in_order() {
    let mut context = blank();
    context.graphics_buffer[0][0] = 0x80;
    context.graphics_buffer[1][2] = 0x11;
    context.graphics_buffer[31][7] = 0x01;
    let flat = context.get_flat_graphics_buffer();
    assert_eq!(flat.len(), 256);
    assert_eq!(flat[0], 0x80);
    assert_eq!(flat[10], 0x11);
    assert_eq!(flat[255], 0x01);
    assert_eq!(flat.iter().filter(|b| **b != 0).count(), 3);
}
