use chip8_core::cpu::instructions::{Instruction, InvalidOpcode};
use chip8_core::{Chip8, Fault, Key, KeyState, OutOfBounds, FRAME_HEIGHT, FRAME_WIDTH};

fn machine_with(program: &[u8]) -> Chip8 {
    let mut chip8 = Chip8::new(7);
    chip8.load(program).unwrap();
    chip8
}

fn run_steps(chip8: &mut Chip8, n: usize) {
    for _ in 0..n {
        chip8.step().unwrap();
    }
}

#[test]
fn load_then_add_immediate() {
    let mut chip8 = machine_with(&[0x60, 0x0A, 0x70, 0x05]);
    run_steps(&mut chip8, 2);
    let registers = chip8.registers();
    assert_eq!(registers.v[0], 0x0F);
    assert_eq!(registers.pc, 0x200 + 4);
}

#[test]
fn immediate_adds_wrap_modulo_256() {
    let mut chip8 = machine_with(&[0x63, 0xF0, 0x73, 0x20, 0x73, 0x01, 0x6A, 0x01, 0x7A, 0xFF]);
    run_steps(&mut chip8, 5);
    let registers = chip8.registers();
    assert_eq!(registers.v[3], 0x11);
    assert_eq!(registers.v[0xA], 0x00);
    assert_eq!(registers.v[0xF], 0);
    assert_eq!(registers.pc, 0x200 + 10);
}

#[test]
fn new_machine_state() {
    let chip8 = Chip8::new(1);
    let registers = chip8.registers();
    assert_eq!(registers.pc, 0x200);
    assert_eq!(registers.i, 0);
    assert_eq!(registers.sp, 0);
    assert_eq!(registers.v, [0; 16]);
    assert_eq!(chip8.speed(), 700);
    assert_eq!(chip8.frame_width(), 64);
    assert_eq!(chip8.frame_height(), 32);
    assert_eq!(FRAME_WIDTH * FRAME_HEIGHT * 4, chip8.frame().len());
    assert!(chip8.frame().as_bytes().chunks(4).all(|p| p == [0, 0, 0, 255]));
}

#[test]
fn carry_and_borrow_set_the_flag_both_ways() {
    // V0 = 0xF0, V1 = 0x20, V0 += V1 (carry), V2 = 1, V2 += V2 (no carry)
    let mut chip8 = machine_with(&[0x60, 0xF0, 0x61, 0x20, 0x80, 0x14, 0x62, 0x01, 0x82, 0x24]);
    run_steps(&mut chip8, 3);
    assert_eq!(chip8.registers().v[0], 0x10);
    assert_eq!(chip8.registers().v[0xF], 1);
    run_steps(&mut chip8, 2);
    assert_eq!(chip8.registers().v[2], 2);
    assert_eq!(chip8.registers().v[0xF], 0);
}

#[test]
fn subtraction_flags() {
    // V0 = 5, V1 = 7; V0 -= V1 -> 0xFE, no-borrow flag 0; V3 = 9, V4 = 4; V3 = V4 - V3 -> 0xFB, flag 0
    let mut chip8 = machine_with(&[0x60, 0x05, 0x61, 0x07, 0x80, 0x15, 0x63, 0x09, 0x64, 0x04, 0x83, 0x47, 0x65, 0x09, 0x66, 0x04, 0x85, 0x65]);
    run_steps(&mut chip8, 3);
    assert_eq!(chip8.registers().v[0], 0xFE);
    assert_eq!(chip8.registers().v[0xF], 0);
    run_steps(&mut chip8, 3);
    assert_eq!(chip8.registers().v[3], 0xFB);
    assert_eq!(chip8.registers().v[0xF], 0);
    run_steps(&mut chip8, 3);
    assert_eq!(chip8.registers().v[5], 5);
    assert_eq!(chip8.registers().v[0xF], 1);
}

#[test]
fn shifts_read_the_second_register() {
    // V1 = 0x81; V0 = V1 >> 1 (flag 1); V2 = V1 << 1 (flag 1)
    let mut chip8 = machine_with(&[0x61, 0x81, 0x80, 0x16, 0x82, 0x1E]);
    run_steps(&mut chip8, 2);
    assert_eq!(chip8.registers().v[0], 0x40);
    assert_eq!(chip8.registers().v[0xF], 1);
    run_steps(&mut chip8, 1);
    assert_eq!(chip8.registers().v[2], 0x02);
    assert_eq!(chip8.registers().v[0xF], 1);
}

#[test]
fn bcd_digits_of_254() {
    // V0 = 254; I = 0x300; BCD V0; load V0..V2 from I
    let mut chip8 = machine_with(&[0x60, 0xFE, 0xA3, 0x00, 0xF0, 0x33, 0xF2, 0x65]);
    run_steps(&mut chip8, 4);
    let registers = chip8.registers();
    assert_eq!(registers.v[0], 2);
    assert_eq!(registers.v[1], 5);
    assert_eq!(registers.v[2], 4);
    assert_eq!(registers.v[0] as u32 * 100 + registers.v[1] as u32 * 10 + registers.v[2] as u32, 254);
}

#[test]
fn dump_then_load_restores_registers() {
    // I = 0x400; dump V0..V5; V0..V5 changed; I = 0x400; load V0..V5
    let mut chip8 = machine_with(&[0xA4, 0x00, 0xF5, 0x55, 0x60, 0x00, 0x65, 0x00, 0xF5, 0x65]);
    let mut registers = chip8.registers();
    registers.v = [9, 8, 7, 6, 5, 4, 0, 0, 0, 0, 0, 0, 0, 0, 0, 0];
    chip8.set_registers(registers);
    run_steps(&mut chip8, 2);
    run_steps(&mut chip8, 2);
    assert_eq!(chip8.registers().v[0], 0);
    assert_eq!(chip8.registers().v[5], 0);
    run_steps(&mut chip8, 1);
    assert_eq!(chip8.registers().v, [9, 8, 7, 6, 5, 4, 0, 0, 0, 0, 0, 0, 0, 0, 0, 0]);
    assert_eq!(chip8.registers().i, 0x400);
}

#[test]
fn draw_twice_turns_pixels_back_off() {
    // I = glyph of 0, V0 = 0, V1 = 0; draw 5 rows twice
    let mut chip8 = machine_with(&[0xA0, 0x00, 0xD0, 0x15, 0xD0, 0x15]);
    run_steps(&mut chip8, 2);
    assert_eq!(chip8.registers().v[0xF], 0);
    let lit = chip8.frame().as_bytes().chunks(4).filter(|p| p[0] == 255).count();
    assert_eq!(lit, 14);
    run_steps(&mut chip8, 1);
    assert_eq!(chip8.registers().v[0xF], 1);
    assert!(chip8.frame().as_bytes().chunks(4).all(|p| p == [0, 0, 0, 255]));
}

#[test]
fn clear_after_draw_leaves_the_frame_dark() {
    let mut chip8 = machine_with(&[0xA0, 0x00, 0xD0, 0x15, 0x00, 0xE0]);
    run_steps(&mut chip8, 2);
    assert!(chip8.frame().as_bytes().chunks(4).any(|p| p[0] == 255));
    run_steps(&mut chip8, 1);
    assert!(chip8.frame().as_bytes().chunks(4).all(|p| p == [0, 0, 0, 255]));
}

#[test]
fn font_glyph_address() {
    // V3 = 0x1B; I = glyph of the low digit (B) = 11 * 5
    let mut chip8 = machine_with(&[0x63, 0x1B, 0xF3, 0x29]);
    run_steps(&mut chip8, 2);
    assert_eq!(chip8.registers().i, 55);
}

#[test]
fn delay_timer_reaches_zero_in_one_second() {
    // V0 = 59; DT = V0; loop forever
    let mut chip8 = machine_with(&[0x60, 59, 0xF0, 0x15, 0x12, 0x04]);
    run_steps(&mut chip8, 2);
    assert_eq!(chip8.registers().dt, 59);
    let mut registers = chip8.registers();
    registers.dt = 59;
    chip8.set_registers(registers);
    chip8.update(1_000_000).unwrap();
    assert_eq!(chip8.registers().dt, 0);
    chip8.update(1_000_000).unwrap();
    assert_eq!(chip8.registers().dt, 0);
}

#[test]
fn delay_timer_of_sixty_reaches_zero_in_one_second() {
    let mut chip8 = machine_with(&[0x12, 0x00]);
    let mut registers = chip8.registers();
    registers.dt = 60;
    registers.st = 3;
    chip8.set_registers(registers);
    chip8.update(1_000_000).unwrap();
    assert_eq!(chip8.registers().dt, 0);
    assert_eq!(chip8.registers().st, 0);
}

#[test]
fn delay_timer_of_sixty_one_keeps_one_after_one_second() {
    let mut chip8 = machine_with(&[0x12, 0x00]);
    let mut registers = chip8.registers();
    registers.dt = 61;
    chip8.set_registers(registers);
    chip8.update(1_000_000).unwrap();
    assert_eq!(chip8.registers().dt, 1);
}

#[test]
fn timers_count_sixty_per_second_at_other_rates() {
    let mut chip8 = machine_with(&[0x12, 0x00]);
    chip8.set_speed(1000);
    let mut registers = chip8.registers();
    registers.dt = 200;
    chip8.set_registers(registers);
    chip8.update(500_000).unwrap();
    assert_eq!(chip8.registers().dt, 170);
}

#[test]
fn update_carries_partial_cycles() {
    // Each cycle takes 1_000_000 / 700 = 1428 microseconds.
    let mut chip8 = machine_with(&[0x70, 0x01, 0x12, 0x00]);
    chip8.update(1000).unwrap();
    assert_eq!(chip8.registers().pc, 0x200);
    chip8.update(428).unwrap();
    assert_eq!(chip8.registers().pc, 0x202);
    assert_eq!(chip8.registers().v[0], 1);
}

#[test]
fn set_speed_changes_cycle_time() {
    let mut chip8 = machine_with(&[0x70, 0x01, 0x12, 0x00]);
    chip8.set_speed(1000);
    assert_eq!(chip8.speed(), 1000);
    chip8.update(5000).unwrap();
    assert_eq!(chip8.registers().v[0], 3);
}

#[test]
fn key_wait_repeats_until_a_release() {
    let mut chip8 = machine_with(&[0xF1, 0x0A, 0x12, 0x02]);
    chip8.handle_key_event(Key::Key3, KeyState::Pressed);
    run_steps(&mut chip8, 3);
    assert_eq!(chip8.registers().pc, 0x200);
    chip8.handle_key_event(Key::Key5, KeyState::Released);
    chip8.handle_key_event(Key::KeyA, KeyState::Released);
    run_steps(&mut chip8, 1);
    assert_eq!(chip8.registers().v[1], 5);
    assert_eq!(chip8.registers().pc, 0x202);
}

#[test]
fn released_edge_is_seen_once() {
    // wait for a key into V1, then wait again into V2
    let mut chip8 = machine_with(&[0xF1, 0x0A, 0xF2, 0x0A]);
    chip8.handle_key_event(Key::Key9, KeyState::Released);
    run_steps(&mut chip8, 1);
    assert_eq!(chip8.registers().v[1], 9);
    run_steps(&mut chip8, 2);
    assert_eq!(chip8.registers().pc, 0x202);
    assert_eq!(chip8.registers().v[2], 0);
}

#[test]
fn key_skips() {
    // V0 = 4; skip if key 4 pressed; V1 = 1; skip if key 4 not pressed; V2 = 2
    let mut chip8 = machine_with(&[0x60, 0x04, 0xE0, 0x9E, 0x61, 0x01, 0xE0, 0xA1, 0x62, 0x02]);
    chip8.handle_key_event(Key::Key4, KeyState::Pressed);
    run_steps(&mut chip8, 2);
    assert_eq!(chip8.registers().pc, 0x206);
    run_steps(&mut chip8, 2);
    assert_eq!(chip8.registers().v[1], 0);
    assert_eq!(chip8.registers().v[2], 2);
}

#[test]
fn call_and_return() {
    // call 0x206; (0x202) V0 = 1; (0x204) jump self; (0x206) V1 = 2; return
    let mut chip8 = machine_with(&[0x22, 0x06, 0x60, 0x01, 0x12, 0x04, 0x61, 0x02, 0x00, 0xEE]);
    run_steps(&mut chip8, 1);
    assert_eq!(chip8.registers().pc, 0x206);
    assert_eq!(chip8.registers().sp, 1);
    run_steps(&mut chip8, 2);
    assert_eq!(chip8.registers().pc, 0x202);
    assert_eq!(chip8.registers().sp, 0);
    run_steps(&mut chip8, 1);
    assert_eq!(chip8.registers().v, [1, 2, 0, 0, 0, 0, 0, 0, 0, 0, 0, 0, 0, 0, 0, 0]);
}

#[test]
fn jump_with_offset() {
    // V0 = 4; jump to 0x200 + V0
    let mut chip8 = machine_with(&[0x60, 0x04, 0xB2, 0x00]);
    run_steps(&mut chip8, 2);
    assert_eq!(chip8.registers().pc, 0x204);
}

#[test]
fn random_with_zero_mask_is_zero() {
    let mut chip8 = machine_with(&[0x60, 0x55, 0xC0, 0x00, 0xC1, 0x0F]);
    run_steps(&mut chip8, 3);
    assert_eq!(chip8.registers().v[0], 0);
    assert!(chip8.registers().v[1] <= 0x0F);
}

#[test]
fn same_seed_same_random_bytes() {
    let program = [0xC0, 0xFF, 0xC1, 0xFF, 0xC2, 0xFF];
    let mut a = Chip8::new(42);
    let mut b = Chip8::new(42);
    a.load(&program).unwrap();
    b.load(&program).unwrap();
    run_steps(&mut a, 3);
    run_steps(&mut b, 3);
    assert_eq!(a.registers().v, b.registers().v);
}

#[test]
fn invalid_opcode_is_reported() {
    let mut chip8 = machine_with(&[0xFF, 0xFF]);
    assert_eq!(chip8.step(), Err(Fault::InvalidOpcode(InvalidOpcode { opcode: 0xFFFF })));
    assert_eq!(chip8.registers().pc, 0x200);
    assert_eq!(chip8.update(10_000), Err(Fault::InvalidOpcode(InvalidOpcode { opcode: 0xFFFF })));
}

#[test]
fn fetch_past_memory_is_a_memory_fault() {
    let mut chip8 = Chip8::new(0);
    let mut registers = chip8.registers();
    registers.pc = 4095;
    chip8.set_registers(registers);
    assert_eq!(chip8.step(), Err(Fault::MemoryFault(OutOfBounds { offset: 4095, length: 2 })));
}

#[test]
fn dump_past_memory_is_a_memory_fault() {
    // I = 0xFFE; dump V0..V3
    let mut chip8 = machine_with(&[0xAF, 0xFE, 0xF3, 0x55]);
    run_steps(&mut chip8, 1);
    assert_eq!(chip8.step(), Err(Fault::MemoryFault(OutOfBounds { offset: 0xFFE, length: 4 })));
    assert_eq!(chip8.registers().pc, 0x202);
}

#[test]
fn return_with_empty_stack_underflows() {
    let mut chip8 = machine_with(&[0x00, 0xEE]);
    assert_eq!(chip8.step(), Err(Fault::StackUnderflow));
}

#[test]
fn seventeenth_call_overflows() {
    let mut chip8 = machine_with(&[0x22, 0x00]);
    run_steps(&mut chip8, 16);
    assert_eq!(chip8.registers().sp, 16);
    assert_eq!(chip8.step(), Err(Fault::StackOverflow));
}

#[test]
fn program_too_large_is_refused() {
    let mut chip8 = Chip8::new(0);
    let program = vec![0u8; 4096 - 0x200 + 1];
    assert_eq!(chip8.load(&program), Err(OutOfBounds { offset: 0x200, length: 4096 - 0x200 + 1 }));
    let program = vec![0u8; 4096 - 0x200];
    assert_eq!(chip8.load(&program), Ok(()));
}

#[test]
fn reset_restores_power_on_state() {
    let mut chip8 = machine_with(&[0x60, 0x01, 0xA0, 0x00, 0xD0, 0x05]);
    chip8.set_speed(900);
    run_steps(&mut chip8, 3);
    chip8.reset();
    let registers = chip8.registers();
    assert_eq!(registers.pc, 0x200);
    assert_eq!(registers.v, [0; 16]);
    assert_eq!(chip8.speed(), 900);
    assert!(chip8.frame().as_bytes().chunks(4).all(|p| p == [0, 0, 0, 255]));
    // the program is gone: memory at the load offset is zero, which decodes to nothing
    assert_eq!(chip8.step(), Err(Fault::InvalidOpcode(InvalidOpcode { opcode: 0 })));
}

#[test]
fn decode_examples() {
    assert_eq!(Instruction::try_from(0x00E0), Ok(Instruction::OpCode00E0));
    assert_eq!(Instruction::try_from(0x8AB6), Ok(Instruction::OpCode8XY6(0xA, 0xB)));
    assert_eq!(Instruction::try_from(0xD125), Ok(Instruction::OpCodeDXYN(1, 2, 5)));
    assert_eq!(Instruction::try_from(0xF965), Ok(Instruction::OpCodeFX65(9)));
    assert_eq!(Instruction::try_from(0xB123), Ok(Instruction::OpCodeBNNN(0x123)));
    assert_eq!(Instruction::try_from(0x5121), Err(InvalidOpcode { opcode: 0x5121 }));
    assert_eq!(Instruction::try_from(0x8008), Err(InvalidOpcode { opcode: 0x8008 }));
    assert_eq!(Instruction::try_from(0xE19F), Err(InvalidOpcode { opcode: 0xE19F }));
}
