use crate::constants::{CHIP8_FB_SIZE, CHIP8_MEMORY_SIZE};
use crate::exec::{draw_collision, draw_fb, exec_result, sprite_bit_at};
use crate::insn::{lemma_decode_wf, spec_decode, Instruction};
use crate::machine::{step_rel, word_at, Fault, MachineState};
use vstd::prelude::*;

verus! {

/// Law: drawing is an involution on the framebuffer. Because a draw
/// XORs the sprite in, drawing the same sprite at the same anchor a
/// second time restores every cell; and the second draw reports a
/// collision exactly where the first left a covered cell ON, that is,
/// wherever the sprite has any set bit over a cell the first draw
/// turned on.
pub proof fn lemma_draw_twice_restores(
    fb: Seq<bool>,
    mem: Seq<u8>,
    i: int,
    px: int,
    py: int,
    n: int,
)
    ensures
        draw_fb(draw_fb(fb, mem, i, px, py, n), mem, i, px, py, n) =~= fb,
        draw_collision(draw_fb(fb, mem, i, px, py, n), mem, i, px, py, n) == (exists|c: int|
            0 <= c < fb.len() && !fb[c] && #[trigger] sprite_bit_at(mem, i, px, py, n, c)),
{
    let once = draw_fb(fb, mem, i, px, py, n);
    assert forall|c: int| 0 <= c < fb.len() implies #[trigger] draw_fb(
        once,
        mem,
        i,
        px,
        py,
        n,
    )[c] == fb[c] by {}
    if draw_collision(once, mem, i, px, py, n) {
        let c = choose|c: int|
            0 <= c < once.len() && once[c] && sprite_bit_at(mem, i, px, py, n, c);
        assert(!fb[c] && sprite_bit_at(mem, i, px, py, n, c));
    }
    if exists|c: int|
        0 <= c < fb.len() && !fb[c] && #[trigger] sprite_bit_at(mem, i, px, py, n, c) {
        let c = choose|c: int|
            0 <= c < fb.len() && !fb[c] && #[trigger] sprite_bit_at(mem, i, px, py, n, c);
        assert(once[c] && sprite_bit_at(mem, i, px, py, n, c));
        assert(draw_collision(once, mem, i, px, py, n));
    }
}

/// Law: clearing the screen leaves every framebuffer cell OFF, so any
/// framebuffer read after `Clear` sees an all-OFF grid, whatever the
/// machine held before.
pub proof fn lemma_clear_blanks_framebuffer(
    pre: MachineState,
    post: MachineState,
    rnd: u8,
    r: Result<(), Fault>,
)
    requires
        pre.wf(),
        exec_result(pre, post, Instruction::Clear, rnd, r),
    ensures
        r == Ok::<(), Fault>(()),
        post.fb.len() == CHIP8_FB_SIZE,
        forall|c: int| 0 <= c < post.fb.len() ==> !post.fb[c],
{
}

/// Law: the three bytes `StoreBcd` writes are the decimal digits of
/// the register's value: each is below ten, and hundreds, tens and
/// units reassemble the value exactly.
pub proof fn lemma_bcd_digits(v: u8)
    ensures
        v / 100 <= 9,
        (v / 10) % 10 <= 9,
        v % 10 <= 9,
        (v / 100) * 100 + ((v / 10) % 10) * 10 + v % 10 == v,
{
    assert((v / 100) * 100 + ((v / 10) % 10) * 10 + v % 10 == v) by (nonlinear_arith)
        requires v < 256;
}

/// Law: a cycle whose fetched instruction is `WaitKeypress` and whose
/// machine holds no pending key release makes no net progress: the
/// rewind undoes the fetch, so the program counter ends where it began
/// and the next cycle fetches the same instruction again; registers,
/// memory, stack, framebuffer and keypad are untouched. Only the cycle
/// counter and the timers still advance. Repeating the cycle therefore
/// blocks until a release event arrives.
pub proof fn lemma_wait_keypress_blocks(
    pre: MachineState,
    post: MachineState,
    rnd: u8,
    r: Result<(), Fault>,
    x: u8,
)
    requires
        pre.wf(),
        pre.pc + 2 <= CHIP8_MEMORY_SIZE,
        spec_decode(word_at(pre, pre.pc as int)) == Instruction::WaitKeypress(x),
        pre.key_released is None,
        step_rel(pre, post, rnd, r),
    ensures
        r == Ok::<(), Fault>(()),
        post.pc == pre.pc,
        post.v == pre.v,
        post.memory == pre.memory,
        post.stack == pre.stack,
        post.sp == pre.sp,
        post.fb == pre.fb,
        post.keypad == pre.keypad,
        post.key_released is None,
{
    lemma_decode_wf(word_at(pre, pre.pc as int));
}

/// Law: a cycle whose fetched instruction is `WaitKeypress` and whose
/// machine holds a pending release of key `key` completes the
/// instruction: the program counter advances normally past the
/// instruction word, the destination register receives the released
/// key's value, that key's pad flag is cleared, and the release event
/// is consumed.
pub proof fn lemma_wait_keypress_completes(
    pre: MachineState,
    post: MachineState,
    rnd: u8,
    r: Result<(), Fault>,
    x: u8,
    key: u8,
)
    requires
        pre.wf(),
        pre.pc + 2 <= CHIP8_MEMORY_SIZE,
        spec_decode(word_at(pre, pre.pc as int)) == Instruction::WaitKeypress(x),
        pre.key_released == Some(key),
        step_rel(pre, post, rnd, r),
    ensures
        r == Ok::<(), Fault>(()),
        post.pc == pre.pc + 2,
        post.v == pre.v.update(x as int, key),
        post.keypad == pre.keypad.update(key as int, false),
        post.key_released is None,
        post.memory == pre.memory,
        post.fb == pre.fb,
{
    lemma_decode_wf(word_at(pre, pre.pc as int));
}

} // verus!
