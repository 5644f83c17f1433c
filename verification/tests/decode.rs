use chip8::{nibbles, Chip8, Instruction};

#[test]
fn nibbles_split_highest_first() {
    assert_eq!(nibbles(0xABCD), (0xA, 0xB, 0xC, 0xD));
    assert_eq!(nibbles(0x0000), (0, 0, 0, 0));
    assert_eq!(nibbles(0xF00F), (0xF, 0, 0, 0xF));
}

#[test]
fn decode_clear_and_return() {
    let c = Chip8::new();
    assert_eq!(c.decode(0x00E0), Instruction::Clear);
    assert_eq!(c.decode(0x00EE), Instruction::Return);
}

#[test]
fn decode_control_flow() {
    let c = Chip8::new();
    assert_eq!(c.decode(0x1234), Instruction::Jump(0x234));
    assert_eq!(c.decode(0x2ABC), Instruction::Call(0xABC));
    assert_eq!(c.decode(0xA111), Instruction::LoadI(0x111));
    assert_eq!(c.decode(0xB300), Instruction::JumpOff(0x300));
}

#[test]
fn decode_immediates() {
    let c = Chip8::new();
    assert_eq!(c.decode(0x3A42), Instruction::SkipEqIm(0xA, 0x42));
    assert_eq!(c.decode(0x4B99), Instruction::SkipNeIm(0xB, 0x99));
    assert_eq!(c.decode(0x6C07), Instruction::LoadIm(0xC, 0x07));
    assert_eq!(c.decode(0x7DFF), Instruction::AddIm(0xD, 0xFF));
    assert_eq!(c.decode(0xC5F0), Instruction::Rnd(5, 0xF0));
}

#[test]
fn decode_register_ops() {
    let c = Chip8::new();
    assert_eq!(c.decode(0x5120), Instruction::SkipEq(1, 2));
    assert_eq!(c.decode(0x9120), Instruction::SkipNe(1, 2));
    assert_eq!(c.decode(0x8120), Instruction::Move(1, 2));
    assert_eq!(c.decode(0x8121), Instruction::Or(1, 2));
    assert_eq!(c.decode(0x8122), Instruction::And(1, 2));
    assert_eq!(c.decode(0x8123), Instruction::Xor(1, 2));
    assert_eq!(c.decode(0x8124), Instruction::Add(1, 2));
    assert_eq!(c.decode(0x8125), Instruction::Sub(1, 2));
    assert_eq!(c.decode(0x8126), Instruction::Shr(1));
    assert_eq!(c.decode(0x8127), Instruction::SubN(1, 2));
    assert_eq!(c.decode(0x812E), Instruction::Shl(1));
}

#[test]
fn decode_draw_and_keys() {
    let c = Chip8::new();
    assert_eq!(c.decode(0xD125), Instruction::Draw(1, 2, 5));
    assert_eq!(c.decode(0xE19E), Instruction::SkipPressed(1));
    assert_eq!(c.decode(0xE2A1), Instruction::SkipNotPressed(2));
    assert_eq!(c.decode(0xF30A), Instruction::WaitKeypress(3));
}

#[test]
fn decode_timers_and_memory() {
    let c = Chip8::new();
    assert_eq!(c.decode(0xF407), Instruction::LoadFromDelayTimer(4));
    assert_eq!(c.decode(0xF515), Instruction::LoadDelayTimer(5));
    assert_eq!(c.decode(0xF618), Instruction::LoadSoundTimer(6));
    assert_eq!(c.decode(0xF71E), Instruction::AddI(7));
    assert_eq!(c.decode(0xF829), Instruction::SetSpriteAddr(8));
    assert_eq!(c.decode(0xF933), Instruction::StoreBcd(9));
    assert_eq!(c.decode(0xFA55), Instruction::StoreRegs(0xA));
    assert_eq!(c.decode(0xFB65), Instruction::LoadRegs(0xB));
}

#[test]
fn decode_unknown_words_are_nops() {
    let c = Chip8::new();
    assert_eq!(c.decode(0x0000), Instruction::Nop);
    assert_eq!(c.decode(0x0123), Instruction::Nop);
    assert_eq!(c.decode(0x5121), Instruction::Nop);
    assert_eq!(c.decode(0x8128), Instruction::Nop);
    assert_eq!(c.decode(0x9121), Instruction::Nop);
    assert_eq!(c.decode(0xE19F), Instruction::Nop);
    assert_eq!(c.decode(0xFFFF), Instruction::Nop);
}
