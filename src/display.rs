use vstd::prelude::*;

verus! {

/// Width of the framebuffer in pixels.
pub const VIDEO_WIDTH: usize = 64;

/// Height of the framebuffer in pixels.
pub const VIDEO_HEIGHT: usize = 32;

/// Bit `c` of a sprite row, counting from the most significant bit.
pub open spec fn bit_of(b: u8, c: int) -> u8 {
    (b >> ((7 - c) as u8)) & 1u8
}

/// The sprite bit that a row byte `b` drawn at column `x0` puts on column `x`,
/// with horizontal wraparound.
pub open spec fn row_bit(b: u8, x0: int, x: int) -> u8 {
    let c = (x - x0) % 64;
    if c < 8 {
        bit_of(b, c)
    } else {
        0u8
    }
}

/// A framebuffer row after XOR-ing the row byte `b` into it at column `x0`.
pub open spec fn xor_row(row: Seq<u8>, x0: int, b: u8) -> Seq<u8> {
    Seq::new(64, |x: int| row[x] ^ row_bit(b, x0, x))
}

/// Whether drawing row byte `b` at column `x0` turns a lit pixel of `row` off.
pub open spec fn row_collides(row: Seq<u8>, x0: int, b: u8) -> bool {
    exists|c: int| 0 <= c < 8 && bit_of(b, c) == 1 && row[(x0 + c) % 64] == 1
}

/// The screen after XOR-ing the sprite `rows` into it with its top left corner
/// at `(x0, y0)`, wrapping around both edges.
pub open spec fn blit(screen: Seq<Seq<u8>>, x0: int, y0: int, rows: Seq<u8>) -> Seq<Seq<u8>> {
    Seq::new(
        32,
        |y: int|
            {
                let r = (y - y0) % 32;
                if r < rows.len() {
                    xor_row(screen[y], x0, rows[r])
                } else {
                    screen[y]
                }
            },
    )
}

/// Whether blitting the sprite `rows` at `(x0, y0)` turns some lit pixel off.
pub open spec fn collides(screen: Seq<Seq<u8>>, x0: int, y0: int, rows: Seq<u8>) -> bool {
    exists|r: int|
        0 <= r < rows.len() && #[trigger] row_collides(screen[(y0 + r) % 32], x0, rows[r])
}

/// A screen of 32 rows of 64 cells, each 0 or 1.
pub open spec fn screen_wf(screen: Seq<Seq<u8>>) -> bool {
    &&& screen.len() == 32
    &&& forall|y: int| 0 <= y < 32 ==> #[trigger] screen[y].len() == 64
    &&& forall|y: int, x: int| 0 <= y < 32 && 0 <= x < 64 ==> #[trigger] screen[y][x] <= 1
}

/// The screen with every cell off.
pub open spec fn blank_screen() -> Seq<Seq<u8>> {
    Seq::new(32, |y: int| Seq::new(64, |x: int| 0u8))
}

/// Memory-mapped devices: the 64x32 monochrome framebuffer and the 16-key
/// input matrix.
pub struct MMIO {
    pub video_memory: [[u8; 64]; 32],
    pub input_memory: [bool; 16],
}

impl MMIO {
    /// The framebuffer as rows of cells.
    pub open spec fn screen(&self) -> Seq<Seq<u8>> {
        Seq::new(32, |y: int| self.video_memory@[y]@)
    }

    /// Every cell of the framebuffer is 0 or 1.
    pub open spec fn wf(&self) -> bool {
        screen_wf(self.screen())
    }

    /// A dark screen and no key pressed.
    pub fn new() -> (r: MMIO)
        ensures
            r.screen() == blank_screen(),
            r.input_memory@ == Seq::new(16, |k: int| false),
            r.wf(),
    {
        let r = MMIO { video_memory: [[0u8; 64]; 32], input_memory: [false; 16] };
        assert(r.screen() =~~= blank_screen());
        assert(r.input_memory@ =~= Seq::new(16, |k: int| false));
        r
    }

    /// Turns every cell off.
    pub fn clear(&mut self)
        ensures
            final(self).screen() == blank_screen(),
            final(self).input_memory == old(self).input_memory,
    {
        let mut y: usize = 0;
        while y < VIDEO_HEIGHT
            invariant
                y <= 32,
                forall|yy: int| 0 <= yy < y ==> #[trigger] self.video_memory@[yy]@ == Seq::new(
                    64,
                    |x: int| 0u8,
                ),
                self.input_memory == old(self).input_memory,
            decreases 32 - y,
        {
            self.video_memory[y] = [0u8; 64];
            assert(self.video_memory@[y as int]@ =~= Seq::new(64, |x: int| 0u8));
            y += 1;
        }
        assert(self.screen() =~~= blank_screen());
    }

    /// Replaces the whole key matrix.
    pub fn set_input(&mut self, keys: [bool; 16])
        ensures
            final(self).input_memory == keys,
            final(self).video_memory == old(self).video_memory,
    {
        self.input_memory = keys;
    }

    /// Whether `key` is held down; keys outside 0..16 never are.
    pub fn is_pressed(&self, key: u8) -> (r: bool)
        ensures
            r == (key < 16 && self.input_memory@[key as int]),
    {
        if key < 16 {
            self.input_memory[key as usize]
        } else {
            false
        }
    }
}

/// XOR facts on cells and sprite bits, which are 0 or 1.
pub proof fn lemma_cell_bits(a: u8, b: u8)
    requires
        a <= 1,
        b <= 1,
    ensures
        a ^ b <= 1,
        (a & b == 1) <==> (a == 1 && b == 1),
        a ^ 0u8 == a,
        (a ^ b) ^ b == a,
{
    assert(a ^ b <= 1 && ((a & b == 1) <==> (a == 1 && b == 1)) && a ^ 0u8 == a && (a ^ b) ^ b
        == a) by (bit_vector)
        requires
            a <= 1,
            b <= 1,
    ;
}

/// A sprite bit is 0 or 1.
pub proof fn lemma_bit_of_small(b: u8, c: int)
    requires
        0 <= c < 8,
    ensures
        bit_of(b, c) <= 1,
{
    let s = (7 - c) as u8;
    assert((b >> s) & 1u8 <= 1) by (bit_vector);
}

impl MMIO {
    /// XORs the row byte `b` into framebuffer row `y` at column `x0` and reports
    /// whether a lit pixel went dark.
    fn xor_row_into(&mut self, y: usize, x0: u8, b: u8) -> (hit: bool)
        requires
            old(self).wf(),
            y < 32,
        ensures
            final(self).input_memory == old(self).input_memory,
            forall|yy: int|
                0 <= yy < 32 && yy != y ==> #[trigger] final(self).video_memory@[yy] == old(
                    self,
                ).video_memory@[yy],
            final(self).video_memory@[y as int]@ == xor_row(
                old(self).video_memory@[y as int]@,
                x0 as int,
                b,
            ),
            hit == row_collides(old(self).video_memory@[y as int]@, x0 as int, b),
    {
        let mut row = self.video_memory[y];
        let ghost old_row = row@;
        assert(forall|x: int| 0 <= x < 64 ==> #[trigger] old_row[x] <= 1) by {
            assert forall|x: int| 0 <= x < 64 implies #[trigger] old_row[x] <= 1 by {
                assert(self.screen()[y as int][x] <= 1);
            }
        }
        assert forall|x: int| 0 <= x < 64 implies #[trigger] row@[x] == old_row[x] ^ 0u8 by {
            lemma_cell_bits(old_row[x], 0u8);
        }
        let mut hit = false;
        let mut c: usize = 0;
        while c < 8
            invariant
                c <= 8,
                old_row.len() == 64,
                row@.len() == 64,
                forall|x: int| 0 <= x < 64 ==> #[trigger] old_row[x] <= 1,
                forall|x: int|
                    0 <= x < 64 ==> #[trigger] row@[x] == old_row[x] ^ (if (x - x0) % 64 < c {
                        row_bit(b, x0 as int, x)
                    } else {
                        0u8
                    }),
                hit == exists|cc: int|
                    0 <= cc < c && bit_of(b, cc) == 1 && #[trigger] old_row[(x0 + cc) % 64] == 1,
            decreases 8 - c,
        {
            let x = (x0 as usize + c) % 64;
            let bit = (b >> (7 - c as u8)) & 1;
            proof {
                lemma_bit_of_small(b, c as int);
                assert(bit == bit_of(b, c as int));
                assert((x - x0) % 64 == c);
                lemma_cell_bits(old_row[x as int], 0u8);
            }
            let cell = row[x];
            proof {
                lemma_cell_bits(cell, bit);
            }
            let ghost prev_hit = hit;
            if cell & bit == 1 {
                hit = true;
            }
            row[x] = cell ^ bit;
            proof {
                assert forall|xx: int| 0 <= xx < 64 implies #[trigger] row@[xx] == old_row[xx] ^ (
                if (xx - x0) % 64 < c + 1 {
                    row_bit(b, x0 as int, xx)
                } else {
                    0u8
                }) by {
                    if xx != x {
                        assert((xx - x0) % 64 != c);
                    } else {
                        assert(row_bit(b, x0 as int, xx) == bit);
                    }
                }
                assert(cell == old_row[x as int]);
                if cell & bit == 1 {
                    assert(bit_of(b, c as int) == 1 && old_row[(x0 + c) % 64] == 1);
                }
                if prev_hit {
                    let cc = choose|cc: int|
                        0 <= cc < c && bit_of(b, cc) == 1 && #[trigger] old_row[(x0 + cc) % 64]
                            == 1;
                    assert(0 <= cc < c + 1 && bit_of(b, cc) == 1 && old_row[(x0 + cc) % 64] == 1);
                }
                if hit {
                    assert(exists|cc: int|
                        0 <= cc < c + 1 && bit_of(b, cc) == 1 && #[trigger] old_row[(x0 + cc) % 64]
                            == 1);
                } else {
                    assert forall|cc: int|
                        0 <= cc < c + 1 && bit_of(b, cc) == 1 implies #[trigger] old_row[(x0 + cc)
                        % 64] != 1 by {
                        if cc == c {
                            assert(cell == old_row[x as int]);
                        }
                    }
                }
            }
            c += 1;
        }
        self.video_memory[y] = row;
        assert(row@ =~= xor_row(old_row, x0 as int, b));
        hit
    }
}

/// XOR-ing a sprite row keeps every cell 0 or 1.
pub proof fn lemma_xor_row_wf(row: Seq<u8>, x0: int, b: u8)
    requires
        row.len() == 64,
        forall|x: int| 0 <= x < 64 ==> #[trigger] row[x] <= 1,
    ensures
        xor_row(row, x0, b).len() == 64,
        forall|x: int| 0 <= x < 64 ==> #[trigger] xor_row(row, x0, b)[x] <= 1,
{
    assert forall|x: int| 0 <= x < 64 implies #[trigger] xor_row(row, x0, b)[x] <= 1 by {
        let c = (x - x0) % 64;
        if c < 8 {
            lemma_bit_of_small(b, c);
        }
        lemma_cell_bits(row[x], row_bit(b, x0, x));
    }
}

impl MMIO {
    /// XORs the sprite `rows` (one byte per row, most significant bit leftmost)
    /// into the framebuffer with its top left corner at `(x0, y0)`, wrapping
    /// around the edges. Returns whether some lit pixel was turned off.
    pub fn draw_sprite(&mut self, x0: u8, y0: u8, rows: &[u8]) -> (collision: bool)
        requires
            old(self).wf(),
            rows@.len() <= 32,
        ensures
            final(self).wf(),
            final(self).screen() == blit(old(self).screen(), x0 as int, y0 as int, rows@),
            collision == collides(old(self).screen(), x0 as int, y0 as int, rows@),
            final(self).input_memory == old(self).input_memory,
    {
        let ghost old_screen = self.screen();
        let mut hit = false;
        let mut r: usize = 0;
        while r < rows.len()
            invariant
                r <= rows@.len() <= 32,
                old_screen == old(self).screen(),
                screen_wf(old_screen),
                self.wf(),
                self.input_memory == old(self).input_memory,
                forall|yy: int|
                    0 <= yy < 32 ==> #[trigger] self.video_memory@[yy]@ == (if (yy - y0) % 32 < r {
                        xor_row(old_screen[yy], x0 as int, rows@[(yy - y0) % 32])
                    } else {
                        old_screen[yy]
                    }),
                hit == exists|rr: int|
                    0 <= rr < r && #[trigger] row_collides(
                        old_screen[(y0 + rr) % 32],
                        x0 as int,
                        rows@[rr],
                    ),
            decreases rows@.len() - r,
        {
            let y = (y0 as usize + r) % 32;
            assert((y - y0) % 32 == r);
            assert(self.video_memory@[y as int]@ == self.screen()[y as int]);
            let row_hit = self.xor_row_into(y, x0, rows[r]);
            let ghost prev_hit = hit;
            hit = hit || row_hit;
            proof {
                assert forall|yy: int| 0 <= yy < 32 implies #[trigger] self.video_memory@[yy]@ == (
                if (yy - y0) % 32 < r + 1 {
                    xor_row(old_screen[yy], x0 as int, rows@[(yy - y0) % 32])
                } else {
                    old_screen[yy]
                }) by {
                    if yy != y {
                        assert((yy - y0) % 32 != r);
                    }
                }
                assert forall|yy: int| 0 <= yy < 32 implies #[trigger] self.screen()[yy].len() == 64
                    && forall|x: int| 0 <= x < 64 ==> #[trigger] self.screen()[yy][x] <= 1 by {
                    assert(self.screen()[yy] == self.video_memory@[yy]@);
                    assert(old_screen[yy].len() == 64);
                    assert(forall|x: int| 0 <= x < 64 ==> #[trigger] old_screen[yy][x] <= 1);
                    if (yy - y0) % 32 < r + 1 {
                        lemma_xor_row_wf(old_screen[yy], x0 as int, rows@[(yy - y0) % 32]);
                    }
                }
                if prev_hit {
                    let rr = choose|rr: int|
                        0 <= rr < r && #[trigger] row_collides(
                            old_screen[(y0 + rr) % 32],
                            x0 as int,
                            rows@[rr],
                        );
                    assert(0 <= rr < r + 1);
                }
                if row_hit {
                    assert(row_collides(old_screen[(y0 + r) % 32], x0 as int, rows@[r as int]));
                }
                if !hit {
                    assert forall|rr: int| 0 <= rr < r + 1 implies !#[trigger] row_collides(
                        old_screen[(y0 + rr) % 32],
                        x0 as int,
                        rows@[rr],
                    ) by {}
                }
            }
            r += 1;
        }
        assert(self.screen() =~= blit(old_screen, x0 as int, y0 as int, rows@));
        hit
    }
}

} // verus!


