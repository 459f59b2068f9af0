use vstd::prelude::*;

use crate::display::{
    bit_of, blank_screen, blit, collides, lemma_bit_of_small, lemma_cell_bits, row_bit,
    row_collides, screen_wf, xor_row,
};
use crate::error::Chip8Error;
use crate::machine::{step, Machine, StepEvent};
use crate::memory::word_at;

verus! {

/// `6xnn` loads `nn` into `V[x]`, whatever `nn` is.
pub proof fn law_load_constant(m: Machine, x: int, nn: u8, rnd: u8)
    requires
        m.wf(),
        0 <= x < 16,
        m.pc + 1 < 4096,
        word_at(m.mem, m.pc as int) == 0x6000 + x * 0x100 + nn,
    ensures
        step(m, rnd).1 == Ok::<StepEvent, Chip8Error>(StepEvent::Executed),
        step(m, rnd).0.v[x] == nn,
{
}

/// `7xnn` adds `nn` to `V[x]` modulo 256 and leaves every other register,
/// the flag register included, as it was.
pub proof fn law_add_constant_wraps(m: Machine, x: int, nn: u8, rnd: u8)
    requires
        m.wf(),
        0 <= x < 16,
        m.pc + 1 < 4096,
        word_at(m.mem, m.pc as int) == 0x7000 + x * 0x100 + nn,
    ensures
        step(m, rnd).1 == Ok::<StepEvent, Chip8Error>(StepEvent::Executed),
        step(m, rnd).0.v[x] == (m.v[x] + nn) % 256,
        forall|k: int| 0 <= k < 16 && k != x ==> #[trigger] step(m, rnd).0.v[k] == m.v[k],
{
}

/// `00E0` leaves every cell of the framebuffer dark and asks for a redraw.
pub proof fn law_clear_screen(m: Machine, rnd: u8)
    requires
        m.wf(),
        m.pc + 1 < 4096,
        word_at(m.mem, m.pc as int) == 0x00E0,
    ensures
        step(m, rnd).1 == Ok::<StepEvent, Chip8Error>(StepEvent::Executed),
        step(m, rnd).0.redraw,
        step(m, rnd).0.screen == blank_screen(),
        forall|y: int, x: int| 0 <= y < 32 && 0 <= x < 64 ==> #[trigger] step(m, rnd).0.screen[y][x] == 0,
{
}

/// Blitting the same sprite twice at the same place restores the screen, and
/// the second blit reports a collision exactly when the sprite overlaps a lit
/// pixel of the screen that the first blit left, that is when a set sprite bit
/// falls on a pixel that was dark before the first blit.
pub proof fn law_blit_twice_restores(screen: Seq<Seq<u8>>, x0: int, y0: int, rows: Seq<u8>)
    requires
        screen_wf(screen),
        rows.len() <= 32,
    ensures
        blit(blit(screen, x0, y0, rows), x0, y0, rows) == screen,
        collides(blit(screen, x0, y0, rows), x0, y0, rows) == exists|r: int, c: int|
            0 <= r < rows.len() && 0 <= c < 8 && bit_of(rows[r], c) == 1 && #[trigger] blit(
                screen,
                x0,
                y0,
                rows,
            )[(y0 + r) % 32][(x0 + c) % 64] == 1,
        collides(blit(screen, x0, y0, rows), x0, y0, rows) == exists|r: int, c: int|
            0 <= r < rows.len() && 0 <= c < 8 && bit_of(rows[r], c) == 1 && #[trigger] screen[(y0
                + r) % 32][(x0 + c) % 64] == 0,
{
    let s1 = blit(screen, x0, y0, rows);
    let s2 = blit(s1, x0, y0, rows);
    assert forall|y: int| 0 <= y < 32 implies #[trigger] s2[y] == screen[y] by {
        let r = (y - y0) % 32;
        if r < rows.len() {
            assert forall|x: int| 0 <= x < 64 implies #[trigger] s2[y][x] == screen[y][x] by {
                let c = (x - x0) % 64;
                if c < 8 {
                    lemma_bit_of_small(rows[r], c);
                }
                lemma_cell_bits(screen[y][x], row_bit(rows[r], x0, x));
            }
            assert(s2[y] =~= screen[y]);
        }
    }
    assert(s2 =~= screen);
    // The collision of the second blit, in terms of the first one's result.
    if collides(s1, x0, y0, rows) {
        let r = choose|r: int|
            0 <= r < rows.len() && #[trigger] row_collides(s1[(y0 + r) % 32], x0, rows[r]);
        let c = choose|c: int|
            0 <= c < 8 && bit_of(rows[r], c) == 1 && s1[(y0 + r) % 32][(x0 + c) % 64] == 1;
        lemma_blit_cell(screen, x0, y0, rows, r, c);
        assert(s1[(y0 + r) % 32][(x0 + c) % 64] == 1);
        assert(screen[(y0 + r) % 32][(x0 + c) % 64] == 0);
    }
    assert forall|r: int, c: int|
        0 <= r < rows.len() && 0 <= c < 8 && bit_of(rows[r], c) == 1 && #[trigger] s1[(y0 + r)
            % 32][(x0 + c) % 64] == 1 implies collides(s1, x0, y0, rows) by {
        assert(row_collides(s1[(y0 + r) % 32], x0, rows[r]));
    }
    assert forall|r: int, c: int|
        0 <= r < rows.len() && 0 <= c < 8 && bit_of(rows[r], c) == 1 && #[trigger] screen[(y0
            + r) % 32][(x0 + c) % 64] == 0 implies s1[(y0 + r) % 32][(x0 + c) % 64] == 1 by {
        lemma_blit_cell(screen, x0, y0, rows, r, c);
    }
    assert forall|r: int, c: int|
        0 <= r < rows.len() && 0 <= c < 8 && bit_of(rows[r], c) == 1 && #[trigger] s1[(y0 + r)
            % 32][(x0 + c) % 64] == 1 implies screen[(y0 + r) % 32][(x0 + c) % 64] == 0 by {
        lemma_blit_cell(screen, x0, y0, rows, r, c);
    }
}

/// The cell that sprite bit `(r, c)` lands on holds the old cell XOR that bit.
proof fn lemma_blit_cell(screen: Seq<Seq<u8>>, x0: int, y0: int, rows: Seq<u8>, r: int, c: int)
    requires
        screen_wf(screen),
        rows.len() <= 32,
        0 <= r < rows.len(),
        0 <= c < 8,
    ensures
        blit(screen, x0, y0, rows)[(y0 + r) % 32][(x0 + c) % 64] == screen[(y0 + r) % 32][(x0
            + c) % 64] ^ bit_of(rows[r], c),
        bit_of(rows[r], c) == 1 ==> (blit(screen, x0, y0, rows)[(y0 + r) % 32][(x0 + c) % 64]
            == 1 <==> screen[(y0 + r) % 32][(x0 + c) % 64] == 0),
{
    let y = (y0 + r) % 32;
    let x = (x0 + c) % 64;
    assert((y - y0) % 32 == r);
    assert((x - x0) % 64 == c);
    assert(screen[y].len() == 64);
    assert(screen[y][x] <= 1);
    assert(xor_row(screen[y], x0, rows[r])[x] == screen[y][x] ^ bit_of(rows[r], c));
    lemma_bit_of_small(rows[r], c);
    let a = screen[y][x];
    let b = bit_of(rows[r], c);
    assert(b == 1 ==> ((a ^ b == 1) <==> a == 0)) by (bit_vector)
        requires
            a <= 1,
    ;
}

/// A call with the stack pointer at 15 fails with `StackOverflow` and changes
/// nothing but the redraw flag.
pub proof fn law_call_overflows(m: Machine, rnd: u8)
    requires
        m.wf(),
        m.sp == 15,
        m.pc + 1 < 4096,
        0x2000 <= word_at(m.mem, m.pc as int) < 0x3000,
    ensures
        step(m, rnd).1 == Err::<StepEvent, Chip8Error>(Chip8Error::StackOverflow),
        step(m, rnd).0 == (Machine { redraw: false, ..m }),
{
}

/// A return with an empty stack fails with `StackUnderflow` and changes
/// nothing but the redraw flag.
pub proof fn law_return_underflows(m: Machine, rnd: u8)
    requires
        m.wf(),
        m.sp == 0,
        m.pc + 1 < 4096,
        word_at(m.mem, m.pc as int) == 0x00EE,
    ensures
        step(m, rnd).1 == Err::<StepEvent, Chip8Error>(Chip8Error::StackUnderflow),
        step(m, rnd).0 == (Machine { redraw: false, ..m }),
{
}

} // verus!
