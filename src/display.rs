use vstd::prelude::*;

verus! {

/// Columns of the framebuffer.
pub const WIDTH: usize = 64;

/// Rows of the framebuffer.
pub const HEIGHT: usize = 32;

/// Number of cells of the framebuffer.
pub const CELLS: usize = 2048;

/// A framebuffer with every cell dark.
pub open spec fn blank() -> Seq<u8> {
    Seq::new(CELLS as nat, |k: int| 0u8)
}

/// Bit `col` of a sprite row, counting from the most significant bit.
pub open spec fn row_bit(byte: u8, col: int) -> u8 {
    (byte >> ((7 - col) as u8)) & 1
}

/// The sprite row that lands on the row of cell `k` when a sprite's top
/// edge is at row `y0`; rows wrap around the bottom edge.
pub open spec fn cell_dr(y0: int, k: int) -> int {
    (k / (WIDTH as int) - y0) % (HEIGHT as int)
}

/// The sprite column that lands on the column of cell `k` when a sprite's
/// left edge is at column `x0`; columns wrap around the right edge.
pub open spec fn cell_dc(x0: int, k: int) -> int {
    (k % (WIDTH as int) - x0) % (WIDTH as int)
}

/// The bit that a sprite drawn with its top-left corner at (`x0`, `y0`)
/// plots at cell `k`.
pub open spec fn sprite_bit(sprite: Seq<u8>, x0: int, y0: int, k: int) -> u8 {
    let dr = cell_dr(y0, k);
    let dc = cell_dc(x0, k);
    if dr < sprite.len() && dc < 8 {
        row_bit(sprite[dr], dc)
    } else {
        0
    }
}

/// As `sprite_bit`, restricted to the sprite bits that come before
/// (`rows`, `cols`) in row-major order.
pub open spec fn plotted_bit(sprite: Seq<u8>, x0: int, y0: int, k: int, rows: int, cols: int) -> u8 {
    let dr = cell_dr(y0, k);
    let dc = cell_dc(x0, k);
    if dr < sprite.len() && dc < 8 && (dr < rows || (dr == rows && dc < cols)) {
        row_bit(sprite[dr], dc)
    } else {
        0
    }
}

/// The cells of `g` after drawing `sprite` at (`x0`, `y0`): each cell is
/// XORed with the bit the sprite plots there.
pub open spec fn drawn(g: Seq<u8>, sprite: Seq<u8>, x0: int, y0: int) -> Seq<u8> {
    Seq::new(g.len(), |k: int| g[k] ^ sprite_bit(sprite, x0, y0, k))
}

/// Whether drawing `sprite` at (`x0`, `y0`) on `g` turns some lit cell dark.
pub open spec fn collides(g: Seq<u8>, sprite: Seq<u8>, x0: int, y0: int) -> bool {
    exists|k: int| 0 <= k < CELLS && #[trigger] g[k] == 1 && sprite_bit(sprite, x0, y0, k) == 1
}

/// Drawing the same sprite twice at the same place restores the framebuffer,
/// and the second draw reports a collision exactly when the first draw lit
/// some pixel, i.e. some plotted bit fell on a dark pixel. In particular, when
/// the first draw collided with nothing, the second collides whenever the
/// sprite has any bit set.
pub proof fn lemma_draw_twice(g: Seq<u8>, sprite: Seq<u8>, x0: int, y0: int)
    requires
        g.len() == CELLS,
        forall|k: int| 0 <= k < CELLS ==> #[trigger] g[k] <= 1,
    ensures
        drawn(drawn(g, sprite, x0, y0), sprite, x0, y0) == g,
        collides(drawn(g, sprite, x0, y0), sprite, x0, y0) <==> exists|k: int|
            0 <= k < CELLS && #[trigger] sprite_bit(sprite, x0, y0, k) == 1 && g[k] == 0,
        !collides(g, sprite, x0, y0) && (exists|k: int|
            0 <= k < CELLS && #[trigger] sprite_bit(sprite, x0, y0, k) == 1) ==> collides(
            drawn(g, sprite, x0, y0),
            sprite,
            x0,
            y0,
        ),
{
    let d = drawn(g, sprite, x0, y0);
    assert forall|k: int| 0 <= k < CELLS implies #[trigger] sprite_bit(sprite, x0, y0, k) <= 1 by {
        let dr = cell_dr(y0, k);
        let dc = cell_dc(x0, k);
        if dr < sprite.len() && dc < 8 {
            let b = sprite[dr];
            let sh = (7 - dc) as u8;
            assert((b >> sh) & 1 <= 1) by (bit_vector);
        }
    }
    assert forall|k: int| 0 <= k < CELLS implies #[trigger] drawn(d, sprite, x0, y0)[k] == g[k] by {
        let a = g[k];
        let b = sprite_bit(sprite, x0, y0, k);
        assert((a ^ b) ^ b == a) by (bit_vector);
    }
    assert(drawn(d, sprite, x0, y0) =~= g);
    assert forall|k: int|
        0 <= k < CELLS && #[trigger] sprite_bit(sprite, x0, y0, k) == 1 implies (d[k] == 1 <==> g[k]
        == 0) by {
        let a = g[k];
        assert(a ^ 1 == 1 <==> a == 0) by (bit_vector);
    }
    if collides(d, sprite, x0, y0) {
        let k = choose|k: int|
            0 <= k < CELLS && #[trigger] d[k] == 1 && sprite_bit(sprite, x0, y0, k) == 1;
        assert(sprite_bit(sprite, x0, y0, k) == 1 && g[k] == 0);
    }
    if exists|k: int| 0 <= k < CELLS && #[trigger] sprite_bit(sprite, x0, y0, k) == 1 && g[k] == 0 {
        let k = choose|k: int|
            0 <= k < CELLS && #[trigger] sprite_bit(sprite, x0, y0, k) == 1 && g[k] == 0;
        assert(d[k] == 1);
    }
    if !collides(g, sprite, x0, y0) && (exists|k: int|
        0 <= k < CELLS && #[trigger] sprite_bit(sprite, x0, y0, k) == 1) {
        let k = choose|k: int| 0 <= k < CELLS && #[trigger] sprite_bit(sprite, x0, y0, k) == 1;
        assert(g[k] != 1);
    }
}

/// Where sprite bit (`row`, `col`) lands when the sprite is drawn at
/// (`x0`, `y0`), and that no other cell receives that bit.
proof fn lemma_cell(x0: int, y0: int, row: int, col: int)
    requires
        0 <= x0 < 256,
        0 <= y0 < 256,
        0 <= row < HEIGHT,
        0 <= col < 8,
    ensures
        ({
            let r = (y0 + row) % (HEIGHT as int);
            let c = (x0 + col) % (WIDTH as int);
            let k = r * (WIDTH as int) + c;
            &&& 0 <= k < CELLS
            &&& k / (WIDTH as int) == r
            &&& k % (WIDTH as int) == c
            &&& cell_dr(y0, k) == row
            &&& cell_dc(x0, k) == col
            &&& forall|j: int|
                0 <= j < CELLS && #[trigger] cell_dr(y0, j) == row && #[trigger] cell_dc(x0, j) == col
                    ==> j == k
        }),
{
}

/// The monochrome framebuffer, row-major: cell (`y`, `x`) is `grid[y * WIDTH + x]`.
pub struct Display {
    pub grid: Vec<u8>,
}

impl Display {
    /// The grid has one cell per pixel, each 0 or 1.
    pub open spec fn wf(&self) -> bool {
        &&& self.grid@.len() == CELLS
        &&& forall|k: int| 0 <= k < CELLS ==> #[trigger] self.grid@[k] <= 1
    }

    /// The value of the pixel at row `y`, column `x`.
    pub open spec fn pixel(&self, y: int, x: int) -> u8 {
        self.grid@[y * (WIDTH as int) + x]
    }

    /// A framebuffer with every pixel dark.
    pub fn new() -> (d: Display)
        ensures
            d.wf(),
            d.grid@ == blank(),
    {
        let grid: Vec<u8> = vec![0u8; CELLS];
        assert(grid@ =~= blank());
        Display { grid }
    }

    /// Turns every pixel dark.
    pub fn clear(&mut self)
        ensures
            final(self).wf(),
            final(self).grid@ == blank(),
            forall|y: int, x: int|
                0 <= y < HEIGHT && 0 <= x < WIDTH ==> #[trigger] final(self).pixel(y, x) == 0,
    {
        self.grid = vec![0u8; CELLS];
        assert(self.grid@ =~= blank());
    }

    /// The pixel at row `y`, column `x`.
    pub fn get_pos(&self, y: u8, x: u8) -> (r: u8)
        requires
            self.wf(),
            y < HEIGHT,
            x < WIDTH,
        ensures
            r == self.pixel(y as int, x as int),
            r <= 1,
    {
        self.grid[y as usize * WIDTH + x as usize]
    }

    /// XORs the pixel at row `y`, column `x` with `bit`.
    pub fn set_pos(&mut self, y: u8, x: u8, bit: u8)
        requires
            old(self).wf(),
            y < HEIGHT,
            x < WIDTH,
            bit <= 1,
        ensures
            final(self).wf(),
            final(self).grid@ == old(self).grid@.update(
                y * WIDTH + x,
                old(self).pixel(y as int, x as int) ^ bit,
            ),
    {
        let k: usize = y as usize * WIDTH + x as usize;
        let old_bit = self.grid[k];
        assert(old_bit ^ bit <= 1) by (bit_vector)
            requires
                old_bit <= 1,
                bit <= 1,
        ;
        self.grid.set(k, old_bit ^ bit);
    }
    /// Draws `sprite`, one byte per row and most significant bit leftmost,
    /// with its top-left corner at column `x0`, row `y0`, wrapping around the
    /// edges. Each plotted bit is XORed into its pixel; the result says
    /// whether some lit pixel was turned dark.
    pub fn draw_sprite(&mut self, x0: u8, y0: u8, sprite: &Vec<u8>) -> (collision: bool)
        requires
            old(self).wf(),
            sprite@.len() <= HEIGHT,
        ensures
            final(self).wf(),
            final(self).grid@ == drawn(old(self).grid@, sprite@, x0 as int, y0 as int),
            collision == collides(old(self).grid@, sprite@, x0 as int, y0 as int),
    {
        let ghost g0 = self.grid@;
        let ghost sp = sprite@;
        let mut collision = false;
        let mut row: usize = 0;
        proof {
            assert forall|k: int| 0 <= k < CELLS implies #[trigger] self.grid@[k] == g0[k]
                ^ plotted_bit(sp, x0 as int, y0 as int, k, 0, 0) by {
                let gk = g0[k];
                assert(gk ^ 0 == gk) by (bit_vector);
            }
        }
        while row < sprite.len()
            invariant
                self.wf(),
                row <= sp.len() <= HEIGHT,
                sp == sprite@,
                g0 == old(self).grid@,
                forall|k: int|
                    0 <= k < CELLS ==> #[trigger] self.grid@[k] == g0[k] ^ plotted_bit(
                        sp,
                        x0 as int,
                        y0 as int,
                        k,
                        row as int,
                        0,
                    ),
                collision == exists|k: int|
                    0 <= k < CELLS && #[trigger] g0[k] == 1 && plotted_bit(
                        sp,
                        x0 as int,
                        y0 as int,
                        k,
                        row as int,
                        0,
                    ) == 1,
            decreases sp.len() - row,
        {
            let byte = sprite[row];
            let y: u8 = ((y0 as usize + row) % HEIGHT) as u8;
            let mut col: u8 = 0;
            while col < 8
                invariant
                    self.wf(),
                    row < sp.len() <= HEIGHT,
                    col <= 8,
                    sp == sprite@,
                    byte == sp[row as int],
                    y == (y0 + row) % (HEIGHT as int),
                    g0 == old(self).grid@,
                    forall|k: int|
                        0 <= k < CELLS ==> #[trigger] self.grid@[k] == g0[k] ^ plotted_bit(
                            sp,
                            x0 as int,
                            y0 as int,
                            k,
                            row as int,
                            col as int,
                        ),
                    collision == exists|k: int|
                        0 <= k < CELLS && #[trigger] g0[k] == 1 && plotted_bit(
                            sp,
                            x0 as int,
                            y0 as int,
                            k,
                            row as int,
                            col as int,
                        ) == 1,
                decreases 8 - col,
            {
                let x: u8 = ((x0 as usize + col as usize) % WIDTH) as u8;
                let shift: u8 = 7 - col;
                let bit: u8 = (byte >> shift) & 1;
                let ghost kc = y * (WIDTH as int) + x;
                proof {
                    lemma_cell(x0 as int, y0 as int, row as int, col as int);
                    assert(bit <= 1) by (bit_vector)
                        requires
                            bit == (byte >> shift) & 1,
                    ;
                    assert(bit == row_bit(byte, col as int));
                    let g0k = g0[kc];
                    assert(g0k ^ 0 == g0k) by (bit_vector);
                }
                let old_px = self.get_pos(y, x);
                if bit == 1 && old_px == 1 {
                    collision = true;
                }
                self.set_pos(y, x, bit);
                col = col + 1;
                proof {
                    assert forall|k: int| 0 <= k < CELLS implies #[trigger] self.grid@[k] == g0[k]
                        ^ plotted_bit(sp, x0 as int, y0 as int, k, row as int, col as int) by {
                        if k != kc {
                            assert(plotted_bit(sp, x0 as int, y0 as int, k, row as int, col as int)
                                == plotted_bit(sp, x0 as int, y0 as int, k, row as int, col - 1));
                        }
                    }
                    if collision {
                        if bit == 1 && old_px == 1 {
                            assert(g0[kc] == 1);
                        } else {
                            let w = choose|k: int|
                                0 <= k < CELLS && #[trigger] g0[k] == 1 && plotted_bit(
                                    sp,
                                    x0 as int,
                                    y0 as int,
                                    k,
                                    row as int,
                                    col - 1,
                                ) == 1;
                            assert(w != kc);
                            assert(plotted_bit(sp, x0 as int, y0 as int, w, row as int, col as int)
                                == 1);
                        }
                    } else {
                        assert forall|k: int|
                            0 <= k < CELLS && #[trigger] g0[k] == 1 implies plotted_bit(
                            sp,
                            x0 as int,
                            y0 as int,
                            k,
                            row as int,
                            col as int,
                        ) != 1 by {
                            if k != kc {
                                assert(plotted_bit(sp, x0 as int, y0 as int, k, row as int, col as int)
                                    == plotted_bit(sp, x0 as int, y0 as int, k, row as int, col - 1));
                            }
                        }
                    }
                }
            }
            row = row + 1;
            proof {
                assert forall|k: int| 0 <= k < CELLS implies plotted_bit(
                    sp,
                    x0 as int,
                    y0 as int,
                    k,
                    row - 1,
                    8,
                ) == #[trigger] plotted_bit(sp, x0 as int, y0 as int, k, row as int, 0) by {}
            }
        }
        proof {
            assert forall|k: int| 0 <= k < CELLS implies #[trigger] plotted_bit(
                sp,
                x0 as int,
                y0 as int,
                k,
                row as int,
                0,
            ) == sprite_bit(sp, x0 as int, y0 as int, k) by {}
            assert(self.grid@ =~= drawn(g0, sp, x0 as int, y0 as int));
        }
        collision
    }
}

} // verus!
