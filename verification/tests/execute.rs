use chip8::constants::{CHIP8_FB_SIZE, CHIP8_WIDTH};
use chip8::{Chip8, Fault, Instruction};

#[test]
fn add_overflow_sets_vf() {
    let mut c = Chip8::new();
    c.v[0] = 0xFF;
    c.v[1] = 0x01;
    assert_eq!(c.execute(Instruction::Add(0, 1)), Ok(()));
    assert_eq!(c.v[0], 0x00);
    assert_eq!(c.v[15], 1);
}

#[test]
fn add_without_overflow_clears_vf() {
    let mut c = Chip8::new();
    c.v[0] = 0x10;
    c.v[1] = 0x01;
    c.v[15] = 1;
    assert_eq!(c.execute(Instruction::Add(0, 1)), Ok(()));
    assert_eq!(c.v[0], 0x11);
    assert_eq!(c.v[15], 0);
}

#[test]
fn sub_without_borrow_sets_vf() {
    let mut c = Chip8::new();
    c.v[0] = 0xFF;
    c.v[1] = 0x01;
    assert_eq!(c.execute(Instruction::Sub(0, 1)), Ok(()));
    assert_eq!(c.v[0], 0xFE);
    assert_eq!(c.v[15], 1);
}

#[test]
fn sub_with_borrow_clears_vf() {
    let mut c = Chip8::new();
    c.v[0] = 0x01;
    c.v[1] = 0x02;
    assert_eq!(c.execute(Instruction::Sub(0, 1)), Ok(()));
    assert_eq!(c.v[0], 0xFF);
    assert_eq!(c.v[15], 0);
}

#[test]
fn subn_subtracts_in_reverse_order() {
    let mut c = Chip8::new();
    c.v[0] = 0x01;
    c.v[1] = 0x03;
    assert_eq!(c.execute(Instruction::SubN(0, 1)), Ok(()));
    assert_eq!(c.v[0], 0x02);
    assert_eq!(c.v[15], 1);
}

#[test]
fn store_bcd_writes_three_digits() {
    let mut c = Chip8::new();
    c.v[2] = 231;
    c.i = 0x300;
    assert_eq!(c.execute(Instruction::StoreBcd(2)), Ok(()));
    assert_eq!(c.memory[0x300], 2);
    assert_eq!(c.memory[0x301], 3);
    assert_eq!(c.memory[0x302], 1);
}

#[test]
fn clear_blanks_every_cell() {
    let mut c = Chip8::new();
    c.fb[0] = true;
    c.fb[777] = true;
    c.fb[CHIP8_FB_SIZE - 1] = true;
    assert_eq!(c.execute(Instruction::Clear), Ok(()));
    for cell in 0..CHIP8_FB_SIZE {
        assert!(!c.fb[cell]);
    }
}

#[test]
fn draw_wraps_columns_and_detects_collision() {
    let mut c = Chip8::new();
    c.memory[0x500] = 0xFF;
    c.i = 0x500;
    c.v[0] = 60;
    c.v[1] = 0;
    c.v[15] = 0;
    assert_eq!(c.execute(Instruction::Draw(0, 1, 1)), Ok(()));
    for x in [60usize, 61, 62, 63, 0, 1, 2, 3] {
        assert!(c.fb[x], "cell x={x} should be ON");
    }
    for x in 4..60 {
        assert!(!c.fb[x]);
    }
    for cell in CHIP8_WIDTH..CHIP8_FB_SIZE {
        assert!(!c.fb[cell]);
    }
    assert_eq!(c.v[15], 0);
    // The same sprite again toggles every cell OFF and reports the
    // collision.
    assert_eq!(c.execute(Instruction::Draw(0, 1, 1)), Ok(()));
    for cell in 0..CHIP8_FB_SIZE {
        assert!(!c.fb[cell]);
    }
    assert_eq!(c.v[15], 1);
}

#[test]
fn draw_wraps_rows() {
    let mut c = Chip8::new();
    c.memory[0x500] = 0x80;
    c.memory[0x501] = 0x80;
    c.i = 0x500;
    c.v[0] = 0;
    c.v[1] = 31;
    assert_eq!(c.execute(Instruction::Draw(0, 1, 2)), Ok(()));
    assert!(c.fb[31 * CHIP8_WIDTH]); // row 31, column 0
    assert!(c.fb[0]); // wrapped to row 0, column 0
    assert_eq!(c.v[15], 0);
}

#[test]
fn draw_without_collision_keeps_prior_vf() {
    // The collision flag is only ever set by a draw, never cleared by
    // one: a draw that collides with nothing leaves VF as it was.
    let mut c = Chip8::new();
    c.memory[0x500] = 0xFF;
    c.i = 0x500;
    c.v[15] = 1;
    assert_eq!(c.execute(Instruction::Draw(0, 1, 1)), Ok(()));
    assert_eq!(c.v[15], 1);
}

#[test]
fn jump_offset_adds_v0() {
    let mut c = Chip8::new();
    c.v[0] = 0x10;
    assert_eq!(c.execute(Instruction::JumpOff(0x300)), Ok(()));
    assert_eq!(c.pc, 0x310);
}

#[test]
fn call_and_return_round_trip() {
    let mut c = Chip8::new();
    c.pc = 0x202;
    assert_eq!(c.execute(Instruction::Call(0x400)), Ok(()));
    assert_eq!(c.pc, 0x400);
    assert_eq!(c.sp, 1);
    assert_eq!(c.stack[0], 0x202);
    assert_eq!(c.execute(Instruction::Return), Ok(()));
    assert_eq!(c.pc, 0x202);
    assert_eq!(c.sp, 0);
}

#[test]
fn return_on_empty_stack_is_a_fault() {
    let mut c = Chip8::new();
    assert_eq!(c.execute(Instruction::Return), Err(Fault::StackUnderflow));
    assert_eq!(c.pc, 0x200);
}

#[test]
fn call_on_full_stack_is_a_fault() {
    let mut c = Chip8::new();
    for _ in 0..16 {
        assert_eq!(c.execute(Instruction::Call(0x400)), Ok(()));
    }
    assert_eq!(c.sp, 16);
    assert_eq!(c.execute(Instruction::Call(0x400)), Err(Fault::StackOverflow));
}

#[test]
fn store_bcd_near_end_of_memory_is_a_fault() {
    let mut c = Chip8::new();
    c.i = 4094;
    c.v[0] = 42;
    assert_eq!(c.execute(Instruction::StoreBcd(0)), Err(Fault::AddressOutOfBounds));
    assert_eq!(c.memory[4094], 0);
}

#[test]
fn add_i_overflow_is_a_fault() {
    let mut c = Chip8::new();
    c.i = 0xFFFF;
    c.v[0] = 1;
    assert_eq!(c.execute(Instruction::AddI(0)), Err(Fault::AddressOutOfBounds));
    assert_eq!(c.i, 0xFFFF);
    c.i = 0xFF00;
    c.v[0] = 0xFF;
    assert_eq!(c.execute(Instruction::AddI(0)), Ok(()));
    assert_eq!(c.i, 0xFFFF);
}

#[test]
fn draw_past_end_of_memory_is_a_fault() {
    let mut c = Chip8::new();
    c.i = 4090;
    assert_eq!(c.execute(Instruction::Draw(0, 1, 15)), Err(Fault::AddressOutOfBounds));
}

#[test]
fn skip_on_out_of_range_key_is_a_fault() {
    let mut c = Chip8::new();
    c.v[0] = 200;
    assert_eq!(c.execute(Instruction::SkipPressed(0)), Err(Fault::AddressOutOfBounds));
}

#[test]
fn strict_decoding_faults_on_unknown_opcodes() {
    let mut c = Chip8::new();
    c.strict_decode = true;
    assert_eq!(c.execute(Instruction::Nop), Err(Fault::UnsupportedInstruction));
    c.strict_decode = false;
    assert_eq!(c.execute(Instruction::Nop), Ok(()));
}

#[test]
fn shifts_capture_the_outgoing_bit() {
    let mut c = Chip8::new();
    c.v[3] = 0b1000_0001;
    assert_eq!(c.execute(Instruction::Shl(3)), Ok(()));
    assert_eq!(c.v[3], 0b0000_0010);
    assert_eq!(c.v[15], 1);
    c.v[3] = 0b1000_0001;
    assert_eq!(c.execute(Instruction::Shr(3)), Ok(()));
    assert_eq!(c.v[3], 0b0100_0000);
    assert_eq!(c.v[15], 1);
    c.v[3] = 0b0100_0010;
    assert_eq!(c.execute(Instruction::Shl(3)), Ok(()));
    assert_eq!(c.v[15], 0);
}

#[test]
fn bitwise_and_move_ops() {
    let mut c = Chip8::new();
    c.v[0] = 0b1100;
    c.v[1] = 0b1010;
    assert_eq!(c.execute(Instruction::Or(0, 1)), Ok(()));
    assert_eq!(c.v[0], 0b1110);
    c.v[0] = 0b1100;
    assert_eq!(c.execute(Instruction::And(0, 1)), Ok(()));
    assert_eq!(c.v[0], 0b1000);
    c.v[0] = 0b1100;
    assert_eq!(c.execute(Instruction::Xor(0, 1)), Ok(()));
    assert_eq!(c.v[0], 0b0110);
    assert_eq!(c.execute(Instruction::Move(4, 1)), Ok(()));
    assert_eq!(c.v[4], 0b1010);
    assert_eq!(c.execute(Instruction::LoadIm(5, 0xAB)), Ok(()));
    assert_eq!(c.v[5], 0xAB);
    c.v[6] = 0xFF;
    assert_eq!(c.execute(Instruction::AddIm(6, 2)), Ok(()));
    assert_eq!(c.v[6], 1); // wrapping, and no flag
    assert_eq!(c.v[15], 0);
}

#[test]
fn skips_advance_pc_by_two_when_taken() {
    let mut c = Chip8::new();
    c.v[0] = 7;
    c.v[1] = 7;
    assert_eq!(c.execute(Instruction::SkipEq(0, 1)), Ok(()));
    assert_eq!(c.pc, 0x202);
    assert_eq!(c.execute(Instruction::SkipNe(0, 1)), Ok(()));
    assert_eq!(c.pc, 0x202);
    assert_eq!(c.execute(Instruction::SkipEqIm(0, 7)), Ok(()));
    assert_eq!(c.pc, 0x204);
    assert_eq!(c.execute(Instruction::SkipNeIm(0, 9)), Ok(()));
    assert_eq!(c.pc, 0x206);
    c.keypad[7] = true;
    assert_eq!(c.execute(Instruction::SkipPressed(0)), Ok(()));
    assert_eq!(c.pc, 0x208);
    assert_eq!(c.execute(Instruction::SkipNotPressed(0)), Ok(()));
    assert_eq!(c.pc, 0x208);
}

#[test]
fn store_and_load_registers_are_inclusive_of_vx() {
    let mut c = Chip8::new();
    c.v[0] = 10;
    c.v[1] = 20;
    c.v[2] = 30;
    c.v[3] = 99;
    c.i = 0x400;
    assert_eq!(c.execute(Instruction::StoreRegs(2)), Ok(()));
    assert_eq!(c.memory[0x400], 10);
    assert_eq!(c.memory[0x401], 20);
    assert_eq!(c.memory[0x402], 30);
    assert_eq!(c.memory[0x403], 0);
    c.v[0] = 0;
    c.v[1] = 0;
    c.v[2] = 0;
    assert_eq!(c.execute(Instruction::LoadRegs(2)), Ok(()));
    assert_eq!(c.v[0], 10);
    assert_eq!(c.v[1], 20);
    assert_eq!(c.v[2], 30);
    assert_eq!(c.v[3], 99);
}

#[test]
fn store_registers_out_of_bounds_is_a_fault() {
    let mut c = Chip8::new();
    c.i = 4090;
    assert_eq!(c.execute(Instruction::StoreRegs(6)), Err(Fault::AddressOutOfBounds));
    assert_eq!(c.execute(Instruction::LoadRegs(6)), Err(Fault::AddressOutOfBounds));
    assert_eq!(c.execute(Instruction::StoreRegs(5)), Ok(()));
}

#[test]
fn timer_loads_copy_registers() {
    let mut c = Chip8::new();
    c.v[4] = 77;
    assert_eq!(c.execute(Instruction::LoadDelayTimer(4)), Ok(()));
    assert_eq!(c.delay_timer, 77);
    assert_eq!(c.execute(Instruction::LoadSoundTimer(4)), Ok(()));
    assert_eq!(c.sound_timer, 77);
    assert!(c.sound_active());
    assert_eq!(c.execute(Instruction::LoadFromDelayTimer(9)), Ok(()));
    assert_eq!(c.v[9], 77);
}

#[test]
fn sprite_addr_uses_low_nibble_times_five() {
    let mut c = Chip8::new();
    c.v[0] = 0xA;
    assert_eq!(c.execute(Instruction::SetSpriteAddr(0)), Ok(()));
    assert_eq!(c.i, 50);
    c.v[0] = 0x1A; // only the low nibble addresses a glyph
    assert_eq!(c.execute(Instruction::SetSpriteAddr(0)), Ok(()));
    assert_eq!(c.i, 50);
}

#[test]
fn random_draw_is_masked_by_the_immediate() {
    let mut c = Chip8::new();
    c.v[3] = 0xAA;
    assert_eq!(c.execute(Instruction::Rnd(3, 0x00)), Ok(()));
    assert_eq!(c.v[3], 0);
    assert_eq!(c.execute(Instruction::Rnd(3, 0x0F)), Ok(()));
    assert!(c.v[3] <= 0x0F);
}

#[test]
fn execute_with_a_given_byte_is_deterministic() {
    let mut c = Chip8::new();
    assert_eq!(c.execute_with_rand(Instruction::Rnd(3, 0xFF), 0x5A), Ok(()));
    assert_eq!(c.v[3], 0x5A);
    assert_eq!(c.execute_with_rand(Instruction::Rnd(3, 0x0F), 0x5A), Ok(()));
    assert_eq!(c.v[3], 0x0A);
}

#[test]
fn every_cycle_consumes_the_release_event() {
    let mut c = Chip8::new();
    c.key_released = Some(4);
    assert_eq!(c.execute(Instruction::LoadIm(0, 1)), Ok(()));
    assert_eq!(c.key_released, None);
    c.key_released = Some(4);
    assert_eq!(c.execute(Instruction::Return), Err(Fault::StackUnderflow));
    assert_eq!(c.key_released, None);
}

#[test]
fn wait_keypress_consumes_the_pending_release() {
    let mut c = Chip8::new();
    c.pc = 0x202;
    c.keypad[5] = true;
    c.key_released = Some(5);
    assert_eq!(c.execute(Instruction::WaitKeypress(1)), Ok(()));
    assert_eq!(c.v[1], 5);
    assert!(!c.keypad[5]);
    assert_eq!(c.key_released, None);
    assert_eq!(c.pc, 0x202);
}

#[test]
fn wait_keypress_rewinds_without_a_release() {
    let mut c = Chip8::new();
    c.pc = 0x202;
    assert_eq!(c.execute(Instruction::WaitKeypress(1)), Ok(()));
    assert_eq!(c.pc, 0x200);
    assert_eq!(c.v[1], 0);
}
