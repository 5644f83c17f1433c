use crate::constants::{CHIP8_FB_SIZE, CHIP8_MEMORY_SIZE, CHIP8_PROGRAM_START, CHIP8_SPEED_HZ};
use crate::exec::exec_step;
use crate::insn::{lemma_decode_wf, nibbles, spec_decode, Instruction};
use vstd::prelude::*;

verus! {

broadcast use vstd::array::group_array_axioms;

/// An explicit failure of one emulated cycle. The reference behaviour
/// for each of these was undefined (a stack or memory access out of
/// bounds); here every one is checked and surfaced to the driving loop.
#[derive(Clone, Copy, Debug, PartialEq, Eq, Structural)]
pub enum Fault {
    /// A word decoded to no legal opcode form while strict decoding is on.
    UnsupportedInstruction,
    /// `Return` was executed with an empty call stack.
    StackUnderflow,
    /// `Call` was executed with all sixteen stack slots in use.
    StackOverflow,
    /// A memory, keypad or program-counter address fell out of range.
    AddressOutOfBounds,
}

/// The mathematical model of the machine: what every contract speaks of.
#[verifier::ext_equal]
pub ghost struct MachineState {
    /// General registers V0..=VF.
    pub v: Seq<u8>,
    /// Index register I.
    pub i: u16,
    pub delay_timer: u8,
    pub sound_timer: u8,
    /// Program counter.
    pub pc: u16,
    /// Call-stack depth; the live entries are `stack[0..sp]`.
    pub sp: u8,
    pub stack: Seq<u16>,
    pub memory: Seq<u8>,
    /// Which of the sixteen logical keys are held down.
    pub keypad: Seq<bool>,
    /// The most recently released key, if the release has not yet been
    /// consumed by an instruction cycle.
    pub key_released: Option<u8>,
    /// The monochrome framebuffer, row-major: cell (x, y) is `fb[y * 64 + x]`.
    pub fb: Seq<bool>,
    /// Counts executed cycles; gates the 60 Hz timer tick.
    pub cycle_count: u64,
    /// Target instruction rate, instructions per second.
    pub hz: u32,
    /// Whether a word that decodes to no legal form is a fault rather
    /// than a silent no-op.
    pub strict_decode: bool,
}

impl MachineState {
    /// Structural sanity of a machine state: fixed sizes, stack depth in
    /// range, a pending key release names a real key, and an instruction
    /// rate the 60 Hz gate can divide by.
    pub open spec fn wf(self) -> bool {
        &&& self.v.len() == 16
        &&& self.stack.len() == 16
        &&& self.memory.len() == CHIP8_MEMORY_SIZE
        &&& self.keypad.len() == 16
        &&& self.fb.len() == CHIP8_FB_SIZE
        &&& self.sp <= 16
        &&& (self.key_released matches Some(k) ==> k < 16)
        &&& self.hz >= 60
        &&& self.hz % 60 == 0
    }

    /// The same state with the pending key-release event consumed.
    /// Every instruction cycle ends in this, whatever instruction ran.
    pub open spec fn with_key_cleared(self) -> MachineState {
        MachineState { key_released: None, ..self }
    }
}

/// The 16-bit big-endian word stored at address `a`.
pub open spec fn word_at(s: MachineState, a: int) -> u16
    recommends
        0 <= a,
        a + 2 <= s.memory.len(),
{
    (s.memory[a] * 256 + s.memory[a + 1]) as u16
}

/// One application of the 60 Hz timer regulator: when the cycle counter
/// is a multiple of `hz / 60`, both timers lose one, saturating at zero.
pub open spec fn tick_timers(s: MachineState) -> MachineState
    recommends
        s.wf(),
{
    if s.cycle_count % ((s.hz / 60) as u64) == 0 {
        MachineState {
            delay_timer: if s.delay_timer == 0 { 0u8 } else { (s.delay_timer - 1) as u8 },
            sound_timer: if s.sound_timer == 0 { 0u8 } else { (s.sound_timer - 1) as u8 },
            ..s
        }
    } else {
        s
    }
}

/// The cycle counter advanced by one, wrapping at 64 bits.
pub open spec fn bump_cycle(s: MachineState) -> MachineState {
    MachineState {
        cycle_count: if s.cycle_count == u64::MAX { 0u64 } else { (s.cycle_count + 1) as u64 },
        ..s
    }
}

/// What one full cycle (fetch, decode, execute, count, timers) does,
/// given the byte `rnd` the cycle would draw from the random source.
pub open spec fn step_rel(
    pre: MachineState,
    post: MachineState,
    rnd: u8,
    r: Result<(), Fault>,
) -> bool
    recommends
        pre.wf(),
{
    if pre.pc + 2 > CHIP8_MEMORY_SIZE {
        r == Err::<(), Fault>(Fault::AddressOutOfBounds) && post == pre
    } else {
        let fetched = MachineState { pc: (pre.pc + 2) as u16, ..pre };
        let insn = spec_decode(word_at(pre, pre.pc as int));
        match exec_step(fetched, insn, rnd) {
            Ok(s2) => r == Ok::<(), Fault>(()) && post == tick_timers(bump_cycle(s2)),
            Err(f) => r == Err::<(), Fault>(f) && post == fetched.with_key_cleared(),
        }
    }
}

/// The glyph bitmap for hexadecimal digit `d`: five bytes, one sprite
/// row each, as published for the CHIP-8 interpreter.
pub open spec fn font_glyph(d: int) -> Seq<u8> {
    if d == 0 {
        seq![0xF0u8, 0x90, 0x90, 0x90, 0xF0]
    } else if d == 1 {
        seq![0x20u8, 0x60, 0x20, 0x20, 0x70]
    } else if d == 2 {
        seq![0xF0u8, 0x10, 0xF0, 0x80, 0xF0]
    } else if d == 3 {
        seq![0xF0u8, 0x10, 0xF0, 0x10, 0xF0]
    } else if d == 4 {
        seq![0x90u8, 0x90, 0xF0, 0x10, 0x10]
    } else if d == 5 {
        seq![0xF0u8, 0x80, 0xF0, 0x10, 0xF0]
    } else if d == 6 {
        seq![0xF0u8, 0x80, 0xF0, 0x90, 0xF0]
    } else if d == 7 {
        seq![0xF0u8, 0x10, 0x20, 0x40, 0x40]
    } else if d == 8 {
        seq![0xF0u8, 0x90, 0xF0, 0x90, 0xF0]
    } else if d == 9 {
        seq![0xF0u8, 0x90, 0xF0, 0x10, 0xF0]
    } else if d == 10 {
        seq![0xF0u8, 0x90, 0xF0, 0x90, 0x90]
    } else if d == 11 {
        seq![0xE0u8, 0x90, 0xE0, 0x90, 0xE0]
    } else if d == 12 {
        seq![0xF0u8, 0x80, 0x80, 0x80, 0xF0]
    } else if d == 13 {
        seq![0xE0u8, 0x90, 0x90, 0x90, 0xE0]
    } else if d == 14 {
        seq![0xF0u8, 0x80, 0xF0, 0x80, 0xF0]
    } else {
        seq![0xF0u8, 0x80, 0xF0, 0x80, 0x80]
    }
}

/// Byte `k` of the font table that occupies memory 0x000..0x050.
pub open spec fn font_byte(k: int) -> u8
    recommends
        0 <= k < 80,
{
    font_glyph(k / 5)[k % 5]
}

/// The machine: registers, memory, stack, timers, keypad, framebuffer.
/// All fields are plain data; the input and presentation collaborators
/// read and write `keypad`, `key_released` and `fb` between cycles.
pub struct Chip8 {
    pub v: [u8; 16],
    pub i: u16,
    pub delay_timer: u8,
    pub sound_timer: u8,
    pub pc: u16,
    pub sp: u8,
    pub stack: [u16; 16],
    pub memory: [u8; CHIP8_MEMORY_SIZE],
    pub keypad: [bool; 16],
    pub key_released: Option<u8>,
    pub fb: [bool; CHIP8_FB_SIZE],
    pub cycle_count: u64,
    pub hz: u32,
    pub strict_decode: bool,
}

impl View for Chip8 {
    type V = MachineState;

    open spec fn view(&self) -> MachineState {
        MachineState {
            v: self.v@,
            i: self.i,
            delay_timer: self.delay_timer,
            sound_timer: self.sound_timer,
            pc: self.pc,
            sp: self.sp,
            stack: self.stack@,
            memory: self.memory@,
            keypad: self.keypad@,
            key_released: self.key_released,
            fb: self.fb@,
            cycle_count: self.cycle_count,
            hz: self.hz,
            strict_decode: self.strict_decode,
        }
    }
}

impl Chip8 {
    /// Structural sanity of the machine; see `MachineState::wf`.
    pub open spec fn wf(&self) -> bool {
        self@.wf()
    }

    /// A machine at power-on: registers, timers and counters zeroed,
    /// the framebuffer off, the font table copied into low memory, and
    /// the program counter at the program start address.
    pub fn new() -> (c: Chip8)
        ensures
            c.wf(),
            c@.v == Seq::new(16, |k: int| 0u8),
            c@.i == 0,
            c@.delay_timer == 0,
            c@.sound_timer == 0,
            c@.pc == CHIP8_PROGRAM_START,
            c@.sp == 0,
            c@.stack == Seq::new(16, |k: int| 0u16),
            forall|k: int|
                0 <= k < CHIP8_MEMORY_SIZE ==> c@.memory[k] == (if k < 80 {
                    font_byte(k)
                } else {
                    0u8
                }),
            c@.keypad == Seq::new(16, |k: int| false),
            c@.key_released is None,
            c@.fb == Seq::new(CHIP8_FB_SIZE as nat, |k: int| false),
            c@.cycle_count == 0,
            c@.hz == CHIP8_SPEED_HZ,
            !c@.strict_decode,
    {
        let mut c = Chip8 {
            v: [0u8; 16],
            i: 0,
            delay_timer: 0,
            sound_timer: 0,
            pc: CHIP8_PROGRAM_START,
            sp: 0,
            stack: [0u16; 16],
            memory: [0u8; CHIP8_MEMORY_SIZE],
            keypad: [false; 16],
            key_released: None,
            fb: [false; CHIP8_FB_SIZE],
            cycle_count: 0,
            hz: CHIP8_SPEED_HZ,
            strict_decode: false,
        };
        c.load_fonts();
        proof {
            assert(c@.v =~= Seq::new(16, |k: int| 0u8));
            assert(c@.stack =~= Seq::new(16, |k: int| 0u16));
            assert(c@.keypad =~= Seq::new(16, |k: int| false));
            assert(c@.fb =~= Seq::new(CHIP8_FB_SIZE as nat, |k: int| false));
        }
        c
    }

    /// Copies the sixteen five-byte font glyphs to memory 0x000..0x050.
    fn load_fonts(&mut self)
        ensures
            forall|k: int| 0 <= k < 80 ==> final(self).memory@[k] == font_byte(k),
            forall|k: int|
                80 <= k < CHIP8_MEMORY_SIZE ==> final(self).memory@[k] == old(self).memory@[k],
            final(self).memory@.len() == old(self).memory@.len(),
            (MachineState { memory: old(self)@.memory, ..final(self)@ } == old(self)@),
    {
        let mut k: usize = 0;
        while k < 80
            invariant
                k <= 80,
                forall|m: int| 0 <= m < k ==> self.memory@[m] == font_byte(m),
                forall|m: int| k <= m < CHIP8_MEMORY_SIZE ==> self.memory@[m] == old(self).memory@[m],
                (MachineState { memory: old(self)@.memory, ..self@ } == old(self)@),
            decreases 80 - k,
        {
            self.memory[k] = font_byte_at(k);
            k = k + 1;
        }
    }

    /// The target real-world duration of one instruction cycle, in
    /// nanoseconds.
    pub fn time_per_insn(&self) -> (r: u64)
        requires
            self.wf(),
        ensures
            r == 1_000_000_000u64 / (self@.hz as u64),
    {
        1_000_000_000u64 / (self.hz as u64)
    }

    /// Whether the tone collaborator should be audible this cycle.
    pub fn sound_active(&self) -> (r: bool)
        ensures
            r == (self@.sound_timer > 0),
    {
        self.sound_timer > 0
    }

    /// Copies a program byte for byte to memory starting at the program
    /// start address. A program that would run past the end of memory is
    /// refused whole: the machine is unchanged.
    pub fn load_binary(&mut self, program: &[u8]) -> (r: Result<(), Fault>)
        requires
            old(self).wf(),
        ensures
            final(self).wf(),
            ({
                let start = CHIP8_PROGRAM_START as int;
                if start + program@.len() <= CHIP8_MEMORY_SIZE {
                    &&& r == Ok::<(), Fault>(())
                    &&& forall|k: int|
                        0 <= k < CHIP8_MEMORY_SIZE ==> final(self).memory@[k] == (if start <= k
                            < start + program@.len() {
                            program@[k - start]
                        } else {
                            old(self).memory@[k]
                        })
                    &&& MachineState { memory: old(self)@.memory, ..final(self)@ } == old(self)@
                } else {
                    r == Err::<(), Fault>(Fault::AddressOutOfBounds) && final(self)@ == old(self)@
                }
            }),
    {
        let start = CHIP8_PROGRAM_START as usize;
        if program.len() > CHIP8_MEMORY_SIZE - start {
            return Err(Fault::AddressOutOfBounds);
        }
        let mut k: usize = 0;
        while k < program.len()
            invariant
                old(self).wf(),
                k <= program.len(),
                start + program@.len() <= CHIP8_MEMORY_SIZE,
                start == CHIP8_PROGRAM_START as int,
                forall|m: int|
                    start <= m < start + k ==> self.memory@[m] == program@[m - start],
                forall|m: int|
                    0 <= m < CHIP8_MEMORY_SIZE && !(start <= m < start + k) ==> self.memory@[m]
                        == old(self).memory@[m],
                (MachineState { memory: old(self)@.memory, ..self@ } == old(self)@),
            decreases program.len() - k,
        {
            self.memory[start + k] = program[k];
            k = k + 1;
        }
        Ok(())
    }

    /// Reads the big-endian instruction word at the program counter and
    /// advances the counter past it. A counter too close to the end of
    /// memory for a whole word is an addressing fault; the machine is
    /// then unchanged.
    pub fn fetch(&mut self) -> (r: Result<u16, Fault>)
        requires
            old(self).wf(),
        ensures
            final(self).wf(),
            ({
                let pre = old(self)@;
                if pre.pc + 2 <= CHIP8_MEMORY_SIZE {
                    &&& r == Ok::<u16, Fault>(word_at(pre, pre.pc as int))
                    &&& final(self)@ == MachineState { pc: (pre.pc + 2) as u16, ..pre }
                } else {
                    r == Err::<u16, Fault>(Fault::AddressOutOfBounds) && final(self)@ == pre
                }
            }),
    {
        let pc = self.pc as usize;
        if pc + 2 > CHIP8_MEMORY_SIZE {
            return Err(Fault::AddressOutOfBounds);
        }
        let hi = self.memory[pc];
        let lo = self.memory[pc + 1];
        self.pc = self.pc + 2;
        Ok((hi as u16) * 256 + (lo as u16))
    }

    /// Decodes one instruction word against the published opcode table.
    /// A word that matches no legal form decodes to `Nop`; decoding
    /// never fails.
    pub fn decode(&self, instruction: u16) -> (r: Instruction)
        ensures
            r == spec_decode(instruction),
            r.wf(),
    {
        proof {
            lemma_decode_wf(instruction);
        }
        let (a, x, y, d) = nibbles(instruction);
        match (a, x, y, d) {
            (0, 0, 0xE, 0) => Instruction::Clear,
            (0, 0, 0xE, 0xE) => Instruction::Return,
            (1, _, _, _) => Instruction::Jump(instruction & 0xFFF),
            (2, _, _, _) => Instruction::Call(instruction & 0xFFF),
            (3, x, _, _) => Instruction::SkipEqIm(x, (instruction & 0xFF) as u8),
            (4, x, _, _) => Instruction::SkipNeIm(x, (instruction & 0xFF) as u8),
            (5, x, y, 0) => Instruction::SkipEq(x, y),
            (6, x, _, _) => Instruction::LoadIm(x, (instruction & 0xFF) as u8),
            (7, x, _, _) => Instruction::AddIm(x, (instruction & 0xFF) as u8),
            (8, x, y, 0) => Instruction::Move(x, y),
            (8, x, y, 1) => Instruction::Or(x, y),
            (8, x, y, 2) => Instruction::And(x, y),
            (8, x, y, 3) => Instruction::Xor(x, y),
            (8, x, y, 4) => Instruction::Add(x, y),
            (8, x, y, 5) => Instruction::Sub(x, y),
            (8, x, _, 6) => Instruction::Shr(x),
            (8, x, y, 7) => Instruction::SubN(x, y),
            (8, x, _, 0xE) => Instruction::Shl(x),
            (9, x, y, 0) => Instruction::SkipNe(x, y),
            (0xA, _, _, _) => Instruction::LoadI(instruction & 0xFFF),
            (0xB, _, _, _) => Instruction::JumpOff(instruction & 0xFFF),
            (0xC, x, _, _) => Instruction::Rnd(x, (instruction & 0xFF) as u8),
            (0xD, x, y, n) => Instruction::Draw(x, y, n),
            (0xE, x, 9, 0xE) => Instruction::SkipPressed(x),
            (0xE, x, 0xA, 1) => Instruction::SkipNotPressed(x),
            (0xF, x, 0, 7) => Instruction::LoadFromDelayTimer(x),
            (0xF, x, 0, 0xA) => Instruction::WaitKeypress(x),
            (0xF, x, 1, 5) => Instruction::LoadDelayTimer(x),
            (0xF, x, 1, 8) => Instruction::LoadSoundTimer(x),
            (0xF, x, 1, 0xE) => Instruction::AddI(x),
            (0xF, x, 2, 9) => Instruction::SetSpriteAddr(x),
            (0xF, x, 3, 3) => Instruction::StoreBcd(x),
            (0xF, x, 5, 5) => Instruction::StoreRegs(x),
            (0xF, x, 6, 5) => Instruction::LoadRegs(x),
            (_, _, _, _) => Instruction::Nop,
        }
    }

    /// Runs one full emulated cycle: fetch, decode, execute, advance
    /// the cycle counter, and apply the 60 Hz timer regulator. On a
    /// fault the cycle stops where the fault was found and the fault is
    /// surfaced for the driving loop to decide; counter and timers then
    /// do not advance.
    pub fn step(&mut self) -> (r: Result<(), Fault>)
        requires
            old(self).wf(),
        ensures
            final(self).wf(),
            exists|rnd: u8| #[trigger] step_rel(old(self)@, final(self)@, rnd, r),
    {
        let w = match self.fetch() {
            Ok(w) => w,
            Err(f) => {
                proof {
                    assert(step_rel(old(self)@, self@, 0u8, Err::<(), Fault>(f)));
                }
                return Err(f);
            },
        };
        let ghost fetched = self@;
        let insn = self.decode(w);
        let r = self.execute(insn);
        let ghost rnd = choose|rnd: u8|
            crate::exec::exec_result(fetched, self@, insn, rnd, r);
        proof {
            assert(fetched == MachineState { pc: (old(self)@.pc + 2) as u16, ..old(self)@ });
        }
        match r {
            Ok(()) => {},
            Err(f) => {
                proof {
                    assert(step_rel(old(self)@, self@, rnd, Err::<(), Fault>(f)));
                }
                return Err(f);
            },
        }
        let ghost executed = self@;
        self.cycle_count = if self.cycle_count == u64::MAX {
            0
        } else {
            self.cycle_count + 1
        };
        proof {
            assert(self@ =~= bump_cycle(executed));
        }
        self.update_timers();
        proof {
            assert(step_rel(old(self)@, self@, rnd, Ok::<(), Fault>(())));
        }
        Ok(())
    }

    /// Applies the 60 Hz timer regulator once; see `tick_timers`.
    pub fn update_timers(&mut self)
        requires
            old(self).wf(),
        ensures
            final(self).wf(),
            final(self)@ == tick_timers(old(self)@),
    {
        if self.cycle_count % ((self.hz / 60) as u64) == 0 {
            self.delay_timer = if self.delay_timer == 0 {
                0
            } else {
                self.delay_timer - 1
            };
            self.sound_timer = if self.sound_timer == 0 {
                0
            } else {
                self.sound_timer - 1
            };
        }
    }
}

/// Byte `k` of the font table, by value.
fn font_byte_at(k: usize) -> (b: u8)
    requires
        k < 80,
    ensures
        b == font_byte(k as int),
{
    let d = k / 5;
    let r = k % 5;
    match d {
        0 => match r { 0 => 0xF0, 1 => 0x90, 2 => 0x90, 3 => 0x90, _ => 0xF0 },
        1 => match r { 0 => 0x20, 1 => 0x60, 2 => 0x20, 3 => 0x20, _ => 0x70 },
        2 => match r { 0 => 0xF0, 1 => 0x10, 2 => 0xF0, 3 => 0x80, _ => 0xF0 },
        3 => match r { 0 => 0xF0, 1 => 0x10, 2 => 0xF0, 3 => 0x10, _ => 0xF0 },
        4 => match r { 0 => 0x90, 1 => 0x90, 2 => 0xF0, 3 => 0x10, _ => 0x10 },
        5 => match r { 0 => 0xF0, 1 => 0x80, 2 => 0xF0, 3 => 0x10, _ => 0xF0 },
        6 => match r { 0 => 0xF0, 1 => 0x80, 2 => 0xF0, 3 => 0x90, _ => 0xF0 },
        7 => match r { 0 => 0xF0, 1 => 0x10, 2 => 0x20, 3 => 0x40, _ => 0x40 },
        8 => match r { 0 => 0xF0, 1 => 0x90, 2 => 0xF0, 3 => 0x90, _ => 0xF0 },
        9 => match r { 0 => 0xF0, 1 => 0x90, 2 => 0xF0, 3 => 0x10, _ => 0xF0 },
        10 => match r { 0 => 0xF0, 1 => 0x90, 2 => 0xF0, 3 => 0x90, _ => 0x90 },
        11 => match r { 0 => 0xE0, 1 => 0x90, 2 => 0xE0, 3 => 0x90, _ => 0xE0 },
        12 => match r { 0 => 0xF0, 1 => 0x80, 2 => 0x80, 3 => 0x80, _ => 0xF0 },
        13 => match r { 0 => 0xE0, 1 => 0x90, 2 => 0x90, 3 => 0x90, _ => 0xE0 },
        14 => match r { 0 => 0xF0, 1 => 0x80, 2 => 0xF0, 3 => 0x80, _ => 0xF0 },
        _ => match r { 0 => 0xF0, 1 => 0x80, 2 => 0xF0, 3 => 0x80, _ => 0x80 },
    }
}

} // verus!
