use crate::constants::{CHIP8_FB_SIZE, CHIP8_HEIGHT, CHIP8_MEMORY_SIZE, CHIP8_WIDTH};
use crate::insn::Instruction;
use crate::machine::{Chip8, Fault, MachineState};
use crate::rng::random_byte;
use vstd::arithmetic::div_mod::{
    lemma_fundamental_div_mod, lemma_fundamental_div_mod_converse, lemma_mod_multiples_vanish,
    lemma_small_mod,
};
use vstd::prelude::*;

verus! {

broadcast use vstd::array::group_array_axioms;

/// Whether bit `k` (counting from the left, bit 0 being the most
/// significant) of one sprite row byte is set.
pub open spec fn sprite_row_bit(line: u8, k: int) -> bool
    recommends
        0 <= k < 8,
{
    (line >> ((7 - k) as u8)) & 1 == 1
}

/// Whether the sprite being drawn covers framebuffer cell `c` with a
/// set bit. A sprite of `n` rows, eight cells wide, is anchored at
/// column `px` and row `py`, wrapping on both axes independently; its
/// rows are the bytes at `mem[i..i + n]`.
pub open spec fn sprite_bit_at(
    mem: Seq<u8>,
    i: int,
    px: int,
    py: int,
    n: int,
    c: int,
) -> bool
    recommends
        0 <= c < CHIP8_FB_SIZE,
        0 <= px,
        0 <= py,
{
    let cy = c / (CHIP8_WIDTH as int);
    let cx = c % (CHIP8_WIDTH as int);
    let j = (cy - py) % (CHIP8_HEIGHT as int);
    let k = (cx - px) % (CHIP8_WIDTH as int);
    j < n && k < 8 && sprite_row_bit(mem[i + j], k)
}

/// The framebuffer after a sprite is drawn: every covered cell is
/// toggled (XOR), every other cell keeps its value.
pub open spec fn draw_fb(
    fb: Seq<bool>,
    mem: Seq<u8>,
    i: int,
    px: int,
    py: int,
    n: int,
) -> Seq<bool> {
    Seq::new(fb.len(), |c: int| fb[c] ^ sprite_bit_at(mem, i, px, py, n, c))
}

/// Whether drawing the sprite clears at least one cell that was ON:
/// the collision condition that sets VF.
pub open spec fn draw_collision(
    fb: Seq<bool>,
    mem: Seq<u8>,
    i: int,
    px: int,
    py: int,
    n: int,
) -> bool {
    exists|c: int| 0 <= c < fb.len() && fb[c] && sprite_bit_at(mem, i, px, py, n, c)
}

impl MachineState {
    /// A conditional skip: when `cond` holds the program counter moves
    /// past the next instruction word.
    pub open spec fn skip(self, cond: bool) -> Result<MachineState, Fault> {
        if !cond {
            Ok(self.with_key_cleared())
        } else if self.pc + 2 <= u16::MAX {
            Ok(MachineState { pc: (self.pc + 2) as u16, key_released: None, ..self })
        } else {
            Err(Fault::AddressOutOfBounds)
        }
    }
}

/// What one instruction does to the machine, given the byte `rnd` that
/// `Rnd` would draw from the random source (no other instruction reads
/// it). `Ok` carries the next state; `Err` carries the fault, and the
/// machine then keeps its state except that the pending key release is
/// consumed, as it is on every cycle.
pub open spec fn exec_step(s: MachineState, insn: Instruction, rnd: u8) -> Result<
    MachineState,
    Fault,
>
    recommends
        s.wf(),
        insn.wf(),
{
    match insn {
        Instruction::Nop => if s.strict_decode {
            Err(Fault::UnsupportedInstruction)
        } else {
            Ok(s.with_key_cleared())
        },
        Instruction::Clear => Ok(
            MachineState {
                fb: Seq::new(CHIP8_FB_SIZE as nat, |c: int| false),
                key_released: None,
                ..s
            },
        ),
        Instruction::Return => if s.sp == 0 {
            Err(Fault::StackUnderflow)
        } else {
            Ok(
                MachineState {
                    sp: (s.sp - 1) as u8,
                    pc: s.stack[s.sp - 1],
                    key_released: None,
                    ..s
                },
            )
        },
        Instruction::Jump(a) => Ok(MachineState { pc: a, key_released: None, ..s }),
        Instruction::Call(a) => if s.sp >= 16 {
            Err(Fault::StackOverflow)
        } else {
            Ok(
                MachineState {
                    stack: s.stack.update(s.sp as int, s.pc),
                    sp: (s.sp + 1) as u8,
                    pc: a,
                    key_released: None,
                    ..s
                },
            )
        },
        Instruction::LoadI(a) => Ok(MachineState { i: a, key_released: None, ..s }),
        Instruction::JumpOff(a) => Ok(
            MachineState { pc: (s.v[0] + a) as u16, key_released: None, ..s },
        ),
        Instruction::AddI(x) => if s.i + s.v[x as int] > u16::MAX {
            Err(Fault::AddressOutOfBounds)
        } else {
            Ok(MachineState { i: (s.i + s.v[x as int]) as u16, key_released: None, ..s })
        },
        Instruction::LoadRegs(x) => if s.i + x >= CHIP8_MEMORY_SIZE {
            Err(Fault::AddressOutOfBounds)
        } else {
            Ok(
                MachineState {
                    v: Seq::new(
                        16,
                        |k: int|
                            if k <= x {
                                s.memory[s.i + k]
                            } else {
                                s.v[k]
                            },
                    ),
                    key_released: None,
                    ..s
                },
            )
        },
        Instruction::StoreRegs(x) => if s.i + x >= CHIP8_MEMORY_SIZE {
            Err(Fault::AddressOutOfBounds)
        } else {
            Ok(
                MachineState {
                    memory: Seq::new(
                        CHIP8_MEMORY_SIZE as nat,
                        |k: int|
                            if s.i <= k <= s.i + x {
                                s.v[k - s.i]
                            } else {
                                s.memory[k]
                            },
                    ),
                    key_released: None,
                    ..s
                },
            )
        },
        Instruction::StoreBcd(x) => if s.i + 2 >= CHIP8_MEMORY_SIZE {
            Err(Fault::AddressOutOfBounds)
        } else {
            Ok(
                MachineState {
                    memory: s.memory.update(s.i as int, (s.v[x as int] / 100) as u8).update(
                        s.i + 1,
                        ((s.v[x as int] / 10) % 10) as u8,
                    ).update(s.i + 2, (s.v[x as int] % 10) as u8),
                    key_released: None,
                    ..s
                },
            )
        },
        Instruction::SetSpriteAddr(x) => Ok(
            MachineState { i: (5 * (s.v[x as int] & 0xF)) as u16, key_released: None, ..s },
        ),
        Instruction::SkipPressed(x) => if s.v[x as int] >= 16 {
            Err(Fault::AddressOutOfBounds)
        } else {
            s.skip(s.keypad[s.v[x as int] as int])
        },
        Instruction::SkipNotPressed(x) => if s.v[x as int] >= 16 {
            Err(Fault::AddressOutOfBounds)
        } else {
            s.skip(!s.keypad[s.v[x as int] as int])
        },
        Instruction::WaitKeypress(x) => match s.key_released {
            Some(k) => Ok(
                MachineState {
                    keypad: s.keypad.update(k as int, false),
                    v: s.v.update(x as int, k),
                    key_released: None,
                    ..s
                },
            ),
            None => if s.pc >= 2 {
                Ok(MachineState { pc: (s.pc - 2) as u16, key_released: None, ..s })
            } else {
                Err(Fault::AddressOutOfBounds)
            },
        },
        Instruction::LoadFromDelayTimer(x) => Ok(
            MachineState { v: s.v.update(x as int, s.delay_timer), key_released: None, ..s },
        ),
        Instruction::LoadDelayTimer(x) => Ok(
            MachineState { delay_timer: s.v[x as int], key_released: None, ..s },
        ),
        Instruction::LoadSoundTimer(x) => Ok(
            MachineState { sound_timer: s.v[x as int], key_released: None, ..s },
        ),
        Instruction::Shl(x) => Ok(
            MachineState {
                v: s.v.update(x as int, s.v[x as int] << 1).update(
                    15,
                    (s.v[x as int] >> 7) & 1,
                ),
                key_released: None,
                ..s
            },
        ),
        Instruction::Shr(x) => Ok(
            MachineState {
                v: s.v.update(x as int, s.v[x as int] >> 1).update(15, s.v[x as int] & 1),
                key_released: None,
                ..s
            },
        ),
        Instruction::SkipEq(x, y) => s.skip(s.v[x as int] == s.v[y as int]),
        Instruction::SkipEqIm(x, kk) => s.skip(s.v[x as int] == kk),
        Instruction::SkipNe(x, y) => s.skip(s.v[x as int] != s.v[y as int]),
        Instruction::SkipNeIm(x, kk) => s.skip(s.v[x as int] != kk),
        Instruction::LoadIm(x, kk) => Ok(
            MachineState { v: s.v.update(x as int, kk), key_released: None, ..s },
        ),
        Instruction::AddIm(x, kk) => Ok(
            MachineState {
                v: s.v.update(x as int, ((s.v[x as int] + kk) % 256) as u8),
                key_released: None,
                ..s
            },
        ),
        Instruction::Move(x, y) => Ok(
            MachineState { v: s.v.update(x as int, s.v[y as int]), key_released: None, ..s },
        ),
        Instruction::Or(x, y) => Ok(
            MachineState {
                v: s.v.update(x as int, s.v[x as int] | s.v[y as int]),
                key_released: None,
                ..s
            },
        ),
        Instruction::And(x, y) => Ok(
            MachineState {
                v: s.v.update(x as int, s.v[x as int] & s.v[y as int]),
                key_released: None,
                ..s
            },
        ),
        Instruction::Xor(x, y) => Ok(
            MachineState {
                v: s.v.update(x as int, s.v[x as int] ^ s.v[y as int]),
                key_released: None,
                ..s
            },
        ),
        Instruction::Add(x, y) => Ok(
            MachineState {
                v: s.v.update(x as int, ((s.v[x as int] + s.v[y as int]) % 256) as u8).update(
                    15,
                    if s.v[x as int] + s.v[y as int] > 255 {
                        1u8
                    } else {
                        0u8
                    },
                ),
                key_released: None,
                ..s
            },
        ),
        Instruction::Sub(x, y) => Ok(
            MachineState {
                v: s.v.update(x as int, ((s.v[x as int] - s.v[y as int]) % 256) as u8).update(
                    15,
                    if s.v[x as int] >= s.v[y as int] {
                        1u8
                    } else {
                        0u8
                    },
                ),
                key_released: None,
                ..s
            },
        ),
        Instruction::SubN(x, y) => Ok(
            MachineState {
                v: s.v.update(x as int, ((s.v[y as int] - s.v[x as int]) % 256) as u8).update(
                    15,
                    if s.v[y as int] >= s.v[x as int] {
                        1u8
                    } else {
                        0u8
                    },
                ),
                key_released: None,
                ..s
            },
        ),
        Instruction::Rnd(x, kk) => Ok(
            MachineState { v: s.v.update(x as int, rnd & kk), key_released: None, ..s },
        ),
        Instruction::Draw(x, y, n) => if s.i + n > CHIP8_MEMORY_SIZE {
            Err(Fault::AddressOutOfBounds)
        } else {
            let px = s.v[x as int] as int;
            let py = s.v[y as int] as int;
            Ok(
                MachineState {
                    fb: draw_fb(s.fb, s.memory, s.i as int, px, py, n as int),
                    v: if draw_collision(s.fb, s.memory, s.i as int, px, py, n as int) {
                        s.v.update(15, 1u8)
                    } else {
                        s.v
                    },
                    key_released: None,
                    ..s
                },
            )
        },
    }
}

/// Whether one instruction relates a pre-state, a post-state and a
/// result as `exec_step` prescribes: on success the post-state is the
/// prescribed one, on a fault the machine keeps its state except for
/// the consumed key-release event.
pub open spec fn exec_result(
    pre: MachineState,
    post: MachineState,
    insn: Instruction,
    rnd: u8,
    r: Result<(), Fault>,
) -> bool {
    match exec_step(pre, insn, rnd) {
        Ok(s) => r == Ok::<(), Fault>(()) && post == s,
        Err(f) => r == Err::<(), Fault>(f) && post == pre.with_key_cleared(),
    }
}

/// Whether the sprite pixel at row `jc`, column `kc` of the cell `c`
/// (in sprite coordinates, both obtained by inverting the wraparound)
/// lies among the pixels a row-major draw loop has handled so far:
/// all of rows before `j`, and columns before `k` of row `j`.
spec fn draw_processed(px: int, py: int, n: int, j: int, k: int, c: int) -> bool {
    let cy = c / (CHIP8_WIDTH as int);
    let cx = c % (CHIP8_WIDTH as int);
    let jc = (cy - py) % (CHIP8_HEIGHT as int);
    let kc = (cx - px) % (CHIP8_WIDTH as int);
    jc < n && kc < 8 && (jc < j || (jc == j && kc < k))
}

/// The framebuffer after the draw loop has handled the pixels that
/// `draw_processed` admits at (`j`, `k`).
spec fn partial_draw_fb(
    fb0: Seq<bool>,
    mem: Seq<u8>,
    i: int,
    px: int,
    py: int,
    n: int,
    j: int,
    k: int,
) -> Seq<bool> {
    Seq::new(
        fb0.len(),
        |c: int|
            fb0[c] ^ (draw_processed(px, py, n, j, k, c) && sprite_bit_at(mem, i, px, py, n, c)),
    )
}

/// Whether a collision has already occurred among the handled pixels.
spec fn partial_draw_collision(
    fb0: Seq<bool>,
    mem: Seq<u8>,
    i: int,
    px: int,
    py: int,
    n: int,
    j: int,
    k: int,
) -> bool {
    exists|c: int|
        0 <= c < fb0.len() && fb0[c] && draw_processed(px, py, n, j, k, c) && sprite_bit_at(
            mem,
            i,
            px,
            py,
            n,
            c,
        )
}

/// Wrapping by `m` is invertible: starting from any anchor, offset `j`
/// is recovered from the wrapped position.
proof fn lemma_wrap_recovers_offset(base: int, j: int, m: int)
    requires
        0 <= base,
        0 <= j < m,
        0 < m,
    ensures
        ((base + j) % m - base) % m == j,
{
    lemma_fundamental_div_mod(base + j, m);
    let q = (base + j) / m;
    assert((base + j) % m - base == m * (-q) + j) by (nonlinear_arith)
        requires base + j == m * q + ((base + j) % m);
    lemma_mod_multiples_vanish(-q, j, m);
    lemma_small_mod(j as nat, m as nat);
}

/// Wrapping by `m` is invertible the other way round: any position is
/// recovered from the offset that maps to it.
proof fn lemma_wrap_recovers_position(base: int, c: int, m: int)
    requires
        0 <= base,
        0 <= c < m,
        0 < m,
    ensures
        (base + ((c - base) % m)) % m == c,
{
    lemma_fundamental_div_mod(c - base, m);
    let q = (c - base) / m;
    assert(base + ((c - base) % m) == m * (-q) + c) by (nonlinear_arith)
        requires c - base == m * q + ((c - base) % m);
    lemma_mod_multiples_vanish(-q, c, m);
    lemma_small_mod(c as nat, m as nat);
}

/// The draw loop's pixel (`j`, `k`) lands on exactly one framebuffer
/// cell, and that cell's sprite coordinates invert back to (`j`, `k`).
proof fn lemma_draw_cell(px: int, py: int, j: int, k: int)
    requires
        0 <= px,
        0 <= py,
        0 <= j < CHIP8_HEIGHT,
        0 <= k < CHIP8_WIDTH,
    ensures
        ({
            let w = CHIP8_WIDTH as int;
            let h = CHIP8_HEIGHT as int;
            let cy = (py + j) % h;
            let cx = (px + k) % w;
            let c0 = cy * w + cx;
            &&& 0 <= c0 < CHIP8_FB_SIZE
            &&& c0 / w == cy
            &&& c0 % w == cx
            &&& (c0 / w - py) % h == j
            &&& (c0 % w - px) % w == k
            &&& forall|c: int| #![trigger c / w]
                0 <= c < CHIP8_FB_SIZE && (c / w - py) % h == j && (c % w - px) % w == k ==> c
                    == c0
        }),
{
    let w = CHIP8_WIDTH as int;
    let h = CHIP8_HEIGHT as int;
    let cy = (py + j) % h;
    let cx = (px + k) % w;
    let c0 = cy * w + cx;
    lemma_fundamental_div_mod(py + j, h);
    lemma_fundamental_div_mod(px + k, w);
    assert(0 <= cy < h && 0 <= cx < w);
    assert(0 <= c0 < CHIP8_FB_SIZE) by (nonlinear_arith)
        requires 0 <= cy < 32, 0 <= cx < 64, w == 64, h == 32, c0 == cy * w + cx;
    lemma_fundamental_div_mod_converse(c0, w, cy, cx);
    lemma_wrap_recovers_offset(py, j, h);
    lemma_wrap_recovers_offset(px, k, w);
    assert forall|c: int| #![trigger c / w]
        0 <= c < CHIP8_FB_SIZE && (c / w - py) % h == j && (c % w - px) % w == k implies c
        == c0 by {
        lemma_fundamental_div_mod(c, w);
        assert(0 <= c % w < w);
        assert(0 <= c / w < h) by (nonlinear_arith)
            requires 0 <= c < 2048, w == 64, h == 32, 0 <= c % w < w, c == w * (c / w) + c % w;
        lemma_wrap_recovers_position(py, c / w, h);
        lemma_wrap_recovers_position(px, c % w, w);
        assert(c / w == cy && c % w == cx);
    }
}

impl Chip8 {
    /// XORs an `n`-row sprite read from memory at I into the
    /// framebuffer, anchored at column `px` and row `py`, wrapping on
    /// both axes per pixel. Returns whether any ON cell was cleared by
    /// an ON sprite bit (the collision condition). Touches nothing but
    /// the framebuffer.
    fn draw_sprite(&mut self, px: u8, py: u8, n: u8) -> (collided: bool)
        requires
            old(self).wf(),
            n < 16,
            old(self).i + n <= CHIP8_MEMORY_SIZE,
        ensures
            final(self).wf(),
            final(self).fb@ == draw_fb(
                old(self).fb@,
                old(self).memory@,
                old(self).i as int,
                px as int,
                py as int,
                n as int,
            ),
            collided == draw_collision(
                old(self).fb@,
                old(self).memory@,
                old(self).i as int,
                px as int,
                py as int,
                n as int,
            ),
            (MachineState { fb: old(self)@.fb, ..final(self)@ } == old(self)@),
    {
        let ghost fb0 = old(self).fb@;
        let ghost mem = old(self).memory@;
        let ghost i0 = old(self).i as int;
        let ghost pxi = px as int;
        let ghost pyi = py as int;
        let ghost ni = n as int;
        let mut collided = false;
        let mut j: usize = 0;
        proof {
            assert(self.fb@ =~= partial_draw_fb(fb0, mem, i0, pxi, pyi, ni, 0, 0));
        }
        while j < n as usize
            invariant
                old(self).wf(),
                n < 16,
                old(self).i + n <= CHIP8_MEMORY_SIZE,
                j <= n,
                fb0 == old(self).fb@,
                mem == old(self).memory@,
                i0 == old(self).i as int,
                pxi == px as int,
                pyi == py as int,
                ni == n as int,
                self.fb@ == partial_draw_fb(fb0, mem, i0, pxi, pyi, ni, j as int, 0),
                collided == partial_draw_collision(fb0, mem, i0, pxi, pyi, ni, j as int, 0),
                (MachineState { fb: old(self)@.fb, ..self@ } == old(self)@),
            decreases n - j,
        {
            let line = self.memory[self.i as usize + j];
            let cy = (py as usize + j) % CHIP8_HEIGHT;
            let mut k: usize = 0;
            while k < 8
                invariant
                    old(self).wf(),
                    n < 16,
                    old(self).i + n <= CHIP8_MEMORY_SIZE,
                    j < n,
                    k <= 8,
                    fb0 == old(self).fb@,
                    mem == old(self).memory@,
                    i0 == old(self).i as int,
                    pxi == px as int,
                    pyi == py as int,
                    ni == n as int,
                    line == mem[i0 + j],
                    cy == (pyi + j) % (CHIP8_HEIGHT as int),
                    self.fb@ == partial_draw_fb(fb0, mem, i0, pxi, pyi, ni, j as int, k as int),
                    collided == partial_draw_collision(
                        fb0,
                        mem,
                        i0,
                        pxi,
                        pyi,
                        ni,
                        j as int,
                        k as int,
                    ),
                    (MachineState { fb: old(self)@.fb, ..self@ } == old(self)@),
                decreases 8 - k,
            {
                let cx = (px as usize + k) % CHIP8_WIDTH;
                let idx = cy * CHIP8_WIDTH + cx;
                proof {
                    lemma_draw_cell(pxi, pyi, j as int, k as int);
                }
                let sbit = (line >> ((7 - k) as u8)) & 1 == 1;
                let ghost coll_before = collided;
                if sbit {
                    let prev = self.fb[idx];
                    if prev {
                        collided = true;
                    }
                    self.fb[idx] = !prev;
                }
                proof {
                    let w = CHIP8_WIDTH as int;
                    let h = CHIP8_HEIGHT as int;
                    let c0 = idx as int;
                    assert(sbit == sprite_bit_at(mem, i0, pxi, pyi, ni, c0));
                    assert forall|c: int| 0 <= c < CHIP8_FB_SIZE && c != c0 implies
                        draw_processed(pxi, pyi, ni, j as int, k as int + 1, c) == draw_processed(
                            pxi,
                            pyi,
                            ni,
                            j as int,
                            k as int,
                            c,
                        ) by {}
                    assert(!draw_processed(pxi, pyi, ni, j as int, k as int, c0));
                    assert(draw_processed(pxi, pyi, ni, j as int, k as int + 1, c0));
                    assert(self.fb@ =~= partial_draw_fb(
                        fb0,
                        mem,
                        i0,
                        pxi,
                        pyi,
                        ni,
                        j as int,
                        k as int + 1,
                    ));
                    // The collision flag folds in exactly the new pixel.
                    if collided {
                        if coll_before {
                            let cw = choose|c: int|
                                0 <= c < fb0.len() && fb0[c] && draw_processed(
                                    pxi,
                                    pyi,
                                    ni,
                                    j as int,
                                    k as int,
                                    c,
                                ) && sprite_bit_at(mem, i0, pxi, pyi, ni, c);
                            assert(draw_processed(pxi, pyi, ni, j as int, k as int + 1, cw));
                        } else {
                            assert(fb0[c0] && sprite_bit_at(mem, i0, pxi, pyi, ni, c0));
                        }
                        assert(partial_draw_collision(
                            fb0,
                            mem,
                            i0,
                            pxi,
                            pyi,
                            ni,
                            j as int,
                            k as int + 1,
                        ));
                    }
                    if partial_draw_collision(fb0, mem, i0, pxi, pyi, ni, j as int, k as int + 1) {
                        let cw = choose|c: int|
                            0 <= c < fb0.len() && fb0[c] && draw_processed(
                                pxi,
                                pyi,
                                ni,
                                j as int,
                                k as int + 1,
                                c,
                            ) && sprite_bit_at(mem, i0, pxi, pyi, ni, c);
                        if !draw_processed(pxi, pyi, ni, j as int, k as int, cw) {
                            assert(cw == c0);
                        }
                        assert(collided);
                    }
                }
                k = k + 1;
            }
            proof {
                assert(partial_draw_fb(fb0, mem, i0, pxi, pyi, ni, j as int, 8) =~= partial_draw_fb(
                    fb0,
                    mem,
                    i0,
                    pxi,
                    pyi,
                    ni,
                    j as int + 1,
                    0,
                ));
                assert(partial_draw_collision(fb0, mem, i0, pxi, pyi, ni, j as int, 8)
                    == partial_draw_collision(fb0, mem, i0, pxi, pyi, ni, j as int + 1, 0));
            }
            j = j + 1;
        }
        proof {
            assert(partial_draw_fb(fb0, mem, i0, pxi, pyi, ni, ni, 0) =~= draw_fb(
                fb0,
                mem,
                i0,
                pxi,
                pyi,
                ni,
            ));
            assert(partial_draw_collision(fb0, mem, i0, pxi, pyi, ni, ni, 0) == draw_collision(
                fb0,
                mem,
                i0,
                pxi,
                pyi,
                ni,
            ));
        }
        collided
    }

    /// Applies one decoded instruction, with `rnd` standing in for the
    /// byte `Rnd` would draw. All semantics are as `exec_step`
    /// prescribes; every cycle, faulting or not, consumes the pending
    /// key-release event.
    #[verifier::rlimit(100)]
    pub fn execute_with_rand(&mut self, insn: Instruction, rnd: u8) -> (r: Result<(), Fault>)
        requires
            old(self).wf(),
            insn.wf(),
        ensures
            final(self).wf(),
            exec_result(old(self)@, final(self)@, insn, rnd, r),
    {
        let r: Result<(), Fault> = match insn {
            Instruction::Nop => {
                if self.strict_decode {
                    Err(Fault::UnsupportedInstruction)
                } else {
                    Ok(())
                }
            },
            Instruction::Clear => {
                self.fb = [false; CHIP8_FB_SIZE];
                Ok(())
            },
            Instruction::Return => {
                if self.sp == 0 {
                    Err(Fault::StackUnderflow)
                } else {
                    self.sp = self.sp - 1;
                    self.pc = self.stack[self.sp as usize];
                    Ok(())
                }
            },
            Instruction::Jump(a) => {
                self.pc = a;
                Ok(())
            },
            Instruction::Call(a) => {
                if self.sp >= 16 {
                    Err(Fault::StackOverflow)
                } else {
                    self.stack[self.sp as usize] = self.pc;
                    self.sp = self.sp + 1;
                    self.pc = a;
                    Ok(())
                }
            },
            Instruction::LoadI(a) => {
                self.i = a;
                Ok(())
            },
            Instruction::JumpOff(a) => {
                self.pc = self.v[0] as u16 + a;
                Ok(())
            },
            Instruction::AddI(x) => {
                if self.i as u32 + self.v[x as usize] as u32 > 0xFFFF {
                    Err(Fault::AddressOutOfBounds)
                } else {
                    self.i = self.i + self.v[x as usize] as u16;
                    Ok(())
                }
            },
            Instruction::LoadRegs(x) => {
                if self.i as usize + x as usize >= CHIP8_MEMORY_SIZE {
                    Err(Fault::AddressOutOfBounds)
                } else {
                    let base = self.i as usize;
                    let mut k: usize = 0;
                    while k <= x as usize
                        invariant
                            x < 16,
                            k <= x as usize + 1,
                            base == old(self)@.i,
                            base + x < CHIP8_MEMORY_SIZE,
                            self.memory@ == old(self).memory@,
                            forall|m: int|
                                0 <= m < k ==> self.v@[m] == old(self).memory@[base + m],
                            forall|m: int| k <= m < 16 ==> self.v@[m] == old(self).v@[m],
                            (MachineState { v: old(self)@.v, ..self@ } == old(self)@),
                        decreases x as int + 1 - k,
                    {
                        self.v[k] = self.memory[base + k];
                        k = k + 1;
                    }
                    proof {
                        let pre = old(self)@;
                        assert(self.v@ =~= Seq::new(
                            16,
                            |m: int|
                                if m <= x {
                                    pre.memory[pre.i + m]
                                } else {
                                    pre.v[m]
                                },
                        ));
                    }
                    Ok(())
                }
            },
            Instruction::StoreRegs(x) => {
                if self.i as usize + x as usize >= CHIP8_MEMORY_SIZE {
                    Err(Fault::AddressOutOfBounds)
                } else {
                    let base = self.i as usize;
                    let mut k: usize = 0;
                    while k <= x as usize
                        invariant
                            x < 16,
                            k <= x as usize + 1,
                            base == old(self)@.i,
                            base + x < CHIP8_MEMORY_SIZE,
                            self.v@ == old(self).v@,
                            forall|m: int|
                                base <= m < base + k ==> self.memory@[m] == old(self).v@[m - base],
                            forall|m: int|
                                0 <= m < CHIP8_MEMORY_SIZE && !(base <= m < base + k)
                                    ==> self.memory@[m] == old(self).memory@[m],
                            (MachineState { memory: old(self)@.memory, ..self@ } == old(self)@),
                        decreases x as int + 1 - k,
                    {
                        self.memory[base + k] = self.v[k];
                        k = k + 1;
                    }
                    proof {
                        let pre = old(self)@;
                        assert(self.memory@ =~= Seq::new(
                            CHIP8_MEMORY_SIZE as nat,
                            |m: int|
                                if pre.i <= m <= pre.i + x {
                                    pre.v[m - pre.i]
                                } else {
                                    pre.memory[m]
                                },
                        ));
                    }
                    Ok(())
                }
            },
            Instruction::StoreBcd(x) => {
                if self.i as usize + 2 >= CHIP8_MEMORY_SIZE {
                    Err(Fault::AddressOutOfBounds)
                } else {
                    let val = self.v[x as usize];
                    let base = self.i as usize;
                    self.memory[base] = val / 100;
                    self.memory[base + 1] = (val / 10) % 10;
                    self.memory[base + 2] = val % 10;
                    Ok(())
                }
            },
            Instruction::SetSpriteAddr(x) => {
                self.i = 5 * ((self.v[x as usize] & 0xF) as u16);
                Ok(())
            },
            Instruction::SkipPressed(x) => {
                let key = self.v[x as usize];
                if key >= 16 {
                    Err(Fault::AddressOutOfBounds)
                } else if self.keypad[key as usize] {
                    if self.pc > 0xFFFD {
                        Err(Fault::AddressOutOfBounds)
                    } else {
                        self.pc = self.pc + 2;
                        Ok(())
                    }
                } else {
                    Ok(())
                }
            },
            Instruction::SkipNotPressed(x) => {
                let key = self.v[x as usize];
                if key >= 16 {
                    Err(Fault::AddressOutOfBounds)
                } else if !self.keypad[key as usize] {
                    if self.pc > 0xFFFD {
                        Err(Fault::AddressOutOfBounds)
                    } else {
                        self.pc = self.pc + 2;
                        Ok(())
                    }
                } else {
                    Ok(())
                }
            },
            Instruction::WaitKeypress(x) => {
                let pending = self.key_released;
                match pending {
                    Some(key) => {
                        self.keypad[key as usize] = false;
                        self.v[x as usize] = key;
                        Ok(())
                    },
                    None => {
                        if self.pc < 2 {
                            Err(Fault::AddressOutOfBounds)
                        } else {
                            self.pc = self.pc - 2;
                            Ok(())
                        }
                    },
                }
            },
            Instruction::LoadFromDelayTimer(x) => {
                self.v[x as usize] = self.delay_timer;
                Ok(())
            },
            Instruction::LoadDelayTimer(x) => {
                self.delay_timer = self.v[x as usize];
                Ok(())
            },
            Instruction::LoadSoundTimer(x) => {
                self.sound_timer = self.v[x as usize];
                Ok(())
            },
            Instruction::Shl(x) => {
                let vv = self.v[x as usize];
                self.v[x as usize] = vv << 1;
                self.v[15] = (vv >> 7) & 1;
                Ok(())
            },
            Instruction::Shr(x) => {
                let vv = self.v[x as usize];
                self.v[x as usize] = vv >> 1;
                self.v[15] = vv & 1;
                Ok(())
            },
            Instruction::SkipEq(x, y) => {
                if self.v[x as usize] == self.v[y as usize] {
                    if self.pc > 0xFFFD {
                        Err(Fault::AddressOutOfBounds)
                    } else {
                        self.pc = self.pc + 2;
                        Ok(())
                    }
                } else {
                    Ok(())
                }
            },
            Instruction::SkipEqIm(x, kk) => {
                if self.v[x as usize] == kk {
                    if self.pc > 0xFFFD {
                        Err(Fault::AddressOutOfBounds)
                    } else {
                        self.pc = self.pc + 2;
                        Ok(())
                    }
                } else {
                    Ok(())
                }
            },
            Instruction::SkipNe(x, y) => {
                if self.v[x as usize] != self.v[y as usize] {
                    if self.pc > 0xFFFD {
                        Err(Fault::AddressOutOfBounds)
                    } else {
                        self.pc = self.pc + 2;
                        Ok(())
                    }
                } else {
                    Ok(())
                }
            },
            Instruction::SkipNeIm(x, kk) => {
                if self.v[x as usize] != kk {
                    if self.pc > 0xFFFD {
                        Err(Fault::AddressOutOfBounds)
                    } else {
                        self.pc = self.pc + 2;
                        Ok(())
                    }
                } else {
                    Ok(())
                }
            },
            Instruction::LoadIm(x, kk) => {
                self.v[x as usize] = kk;
                Ok(())
            },
            Instruction::AddIm(x, kk) => {
                let sum = self.v[x as usize] as u16 + kk as u16;
                self.v[x as usize] = (sum % 256) as u8;
                Ok(())
            },
            Instruction::Move(x, y) => {
                self.v[x as usize] = self.v[y as usize];
                Ok(())
            },
            Instruction::Or(x, y) => {
                self.v[x as usize] = self.v[x as usize] | self.v[y as usize];
                Ok(())
            },
            Instruction::And(x, y) => {
                self.v[x as usize] = self.v[x as usize] & self.v[y as usize];
                Ok(())
            },
            Instruction::Xor(x, y) => {
                self.v[x as usize] = self.v[x as usize] ^ self.v[y as usize];
                Ok(())
            },
            Instruction::Add(x, y) => {
                let sum = self.v[x as usize] as u16 + self.v[y as usize] as u16;
                self.v[x as usize] = (sum % 256) as u8;
                self.v[15] = if sum > 255 {
                    1
                } else {
                    0
                };
                Ok(())
            },
            Instruction::Sub(x, y) => {
                let vx = self.v[x as usize];
                let vy = self.v[y as usize];
                proof {
                    lemma_mod_multiples_vanish(1, vx - vy, 256);
                }
                let diff = vx as u16 + 256 - vy as u16;
                self.v[x as usize] = (diff % 256) as u8;
                self.v[15] = if vx >= vy {
                    1
                } else {
                    0
                };
                Ok(())
            },
            Instruction::SubN(x, y) => {
                let vx = self.v[x as usize];
                let vy = self.v[y as usize];
                proof {
                    lemma_mod_multiples_vanish(1, vy - vx, 256);
                }
                let diff = vy as u16 + 256 - vx as u16;
                self.v[x as usize] = (diff % 256) as u8;
                self.v[15] = if vy >= vx {
                    1
                } else {
                    0
                };
                Ok(())
            },
            Instruction::Rnd(x, kk) => {
                self.v[x as usize] = rnd & kk;
                Ok(())
            },
            Instruction::Draw(x, y, n) => {
                if self.i as usize + n as usize > CHIP8_MEMORY_SIZE {
                    Err(Fault::AddressOutOfBounds)
                } else {
                    let px = self.v[x as usize];
                    let py = self.v[y as usize];
                    let collided = self.draw_sprite(px, py, n);
                    if collided {
                        self.v[15] = 1;
                    }
                    Ok(())
                }
            },
        };
        self.key_released = None;
        proof {
            let pre = old(self)@;
            let post = self@;
            match exec_step(pre, insn, rnd) {
                Ok(s) => {
                    assert(post =~= s);
                },
                Err(f) => {
                    assert(post =~= pre.with_key_cleared());
                },
            }
        }
        r
    }

    /// Applies one decoded instruction, drawing from the machine's
    /// random source where the instruction calls for it. What held of
    /// the cycle holds for the byte that was drawn, whichever it was.
    pub fn execute(&mut self, insn: Instruction) -> (r: Result<(), Fault>)
        requires
            old(self).wf(),
            insn.wf(),
        ensures
            final(self).wf(),
            exists|rnd: u8| #[trigger] exec_result(old(self)@, final(self)@, insn, rnd, r),
    {
        let rnd = random_byte();
        let r = self.execute_with_rand(insn, rnd);
        proof {
            assert(exec_result(old(self)@, self@, insn, rnd, r));
        }
        r
    }
}

} // verus!
