use vstd::prelude::*;

verus! {

use vstd::pervasive::VecAdditionalExecFns;

pub const DISPLAY_WIDTH: usize = 64;

pub const DISPLAY_HEIGHT: usize = 32;

pub const DISPLAY_SIZE: usize = DISPLAY_WIDTH * DISPLAY_HEIGHT;

/// The row-major position of the pixel that column `x`, row `y` lands on
/// after wrapping around the toroidal screen.
pub open spec fn pix(x: int, y: int) -> int {
    (y % (DISPLAY_HEIGHT as int)) * (DISPLAY_WIDTH as int) + (x % (DISPLAY_WIDTH as int))
}

/// Whether bit `i` of a sprite row byte is set, counting the leftmost
/// (most significant) bit as bit 0.
pub open spec fn row_bit(row: u8, i: int) -> bool {
    row & (0x80u8 >> i) != 0
}

/// The grid and collision flag after XOR-plotting the first `nb` bits of
/// one sprite row byte at column `x`, row `y`, bit by bit from the left:
/// a set bit toggles its pixel, and collides when that pixel was lit.
pub open spec fn draw_row(g: Seq<bool>, x: int, y: int, row: u8, nb: int) -> (Seq<bool>, bool)
    decreases nb,
{
    if nb <= 0 {
        (g, false)
    } else {
        let prev = draw_row(g, x, y, row, nb - 1);
        let i = nb - 1;
        if row_bit(row, i) {
            let p = pix(x + i, y);
            (prev.0.update(p, !prev.0[p]), prev.1 || prev.0[p])
        } else {
            prev
        }
    }
}

/// The grid and collision flag after XOR-plotting the first `nr` rows of
/// a sprite, row `j` landing on screen row `y + j`.
pub open spec fn draw_rows(g: Seq<bool>, x: int, y: int, sprite: Seq<u8>, nr: int) -> (
    Seq<bool>,
    bool,
)
    decreases nr,
{
    if nr <= 0 {
        (g, false)
    } else {
        let prev = draw_rows(g, x, y, sprite, nr - 1);
        let rowres = draw_row(prev.0, x, y + nr - 1, sprite[nr - 1], 8);
        (rowres.0, prev.1 || rowres.1)
    }
}

/// The grid after drawing a whole sprite at (x, y).
pub open spec fn spec_draw(g: Seq<bool>, x: int, y: int, sprite: Seq<u8>) -> Seq<bool> {
    draw_rows(g, x, y, sprite, sprite.len() as int).0
}

/// Whether drawing the sprite at (x, y) toggles any pixel that was lit.
pub open spec fn spec_collision(g: Seq<bool>, x: int, y: int, sprite: Seq<u8>) -> bool {
    draw_rows(g, x, y, sprite, sprite.len() as int).1
}

/// The all-unset pixel grid.
pub open spec fn blank_grid() -> Seq<bool> {
    Seq::new(DISPLAY_SIZE as nat, |i: int| false)
}

/// Plotting one row never changes the size of a full-screen grid.
pub proof fn lemma_draw_row_len(g: Seq<bool>, x: int, y: int, row: u8, nb: int)
    requires
        g.len() == DISPLAY_SIZE,
    ensures
        draw_row(g, x, y, row, nb).0.len() == g.len(),
    decreases nb,
{
    if nb > 0 {
        lemma_draw_row_len(g, x, y, row, nb - 1);
    }
}

/// Plotting a sprite never changes the size of a full-screen grid.
pub proof fn lemma_draw_rows_len(g: Seq<bool>, x: int, y: int, sprite: Seq<u8>, nr: int)
    requires
        g.len() == DISPLAY_SIZE,
    ensures
        draw_rows(g, x, y, sprite, nr).0.len() == g.len(),
    decreases nr,
{
    if nr > 0 {
        lemma_draw_rows_len(g, x, y, sprite, nr - 1);
        lemma_draw_row_len(draw_rows(g, x, y, sprite, nr - 1).0, x, y + nr - 1, sprite[nr - 1], 8);
    }
}

/// The display capability: a toroidal monochrome pixel grid onto which
/// sprites are XOR-plotted.  `grid()` models the current pixel state in
/// row-major order; `draw` reports whether any plotted bit collided with
/// an already-set pixel.
pub trait Display: Sized {
    spec fn grid(&self) -> Seq<bool>;

    fn draw(&mut self, x: usize, y: usize, sprite: &[u8]) -> (collision: bool)
        requires
            old(self).grid().len() == DISPLAY_SIZE,
            x <= 255,
            y <= 255,
            sprite@.len() <= 32,
        ensures
            final(self).grid() == spec_draw(old(self).grid(), x as int, y as int, sprite@),
            collision == spec_collision(old(self).grid(), x as int, y as int, sprite@),
    ;

    fn clear(&mut self)
        ensures
            final(self).grid() == blank_grid(),
    ;
}

/// A headless in-memory display: the pixel grid and nothing else.  This
/// is the one fully verified conformer of `Display`; renderers can own
/// one and paint its pixels to a real device after each draw.
pub struct FrameBuffer {
    pub pixels: Vec<bool>,
}

impl FrameBuffer {
    /// A blank screen.
    pub fn new() -> (r: FrameBuffer)
        ensures
            r.grid() == blank_grid(),
    {
        let mut pixels: Vec<bool> = Vec::new();
        let mut i: usize = 0;
        while i < DISPLAY_SIZE
            invariant
                i <= DISPLAY_SIZE,
                pixels@.len() == i,
                forall|j: int| 0 <= j < i ==> !pixels@[j],
            decreases DISPLAY_SIZE - i,
        {
            pixels.push(false);
            i = i + 1;
        }
        let r = FrameBuffer { pixels };
        proof {
            assert(r.grid() =~= blank_grid());
        }
        r
    }

    /// The state of the pixel at column `x`, row `y`.
    pub fn pixel(&self, x: usize, y: usize) -> (r: bool)
        requires
            self.grid().len() == DISPLAY_SIZE,
            x < DISPLAY_WIDTH,
            y < DISPLAY_HEIGHT,
        ensures
            r == self.grid()[y * DISPLAY_WIDTH + x],
    {
        self.pixels[y * DISPLAY_WIDTH + x]
    }
}

impl Display for FrameBuffer {
    open spec fn grid(&self) -> Seq<bool> {
        self.pixels@
    }

    fn draw(&mut self, x: usize, y: usize, sprite: &[u8]) -> (collision: bool) {
        let mut collision = false;
        let n = sprite.len();
        let ghost g0 = self.pixels@;
        let mut j: usize = 0;
        while j < n
            invariant
                n == sprite@.len(),
                n <= 32,
                x <= 255,
                y <= 255,
                j <= n,
                g0.len() == DISPLAY_SIZE,
                self.pixels@ == draw_rows(g0, x as int, y as int, sprite@, j as int).0,
                collision == draw_rows(g0, x as int, y as int, sprite@, j as int).1,
                self.pixels@.len() == DISPLAY_SIZE,
            decreases n - j,
        {
            let row = *vstd::slice::slice_index_get(sprite, j);
            let ghost gr = self.pixels@;
            let ghost collr = collision;
            let ghost yy = y + j as int;
            let mut rowcoll = false;
            let mut i: usize = 0;
            while i < 8
                invariant
                    i <= 8,
                    x <= 255,
                    y <= 255,
                    j < n,
                    n <= 32,
                    row == sprite@[j as int],
                    yy == y + j as int,
                    gr.len() == DISPLAY_SIZE,
                    self.pixels@ == draw_row(gr, x as int, yy, row, i as int).0,
                    rowcoll == draw_row(gr, x as int, yy, row, i as int).1,
                    self.pixels@.len() == DISPLAY_SIZE,
                decreases 8 - i,
            {
                let yj = (y + j) % DISPLAY_HEIGHT;
                let xi = (x + i) % DISPLAY_WIDTH;
                if row & (0x80u8 >> i) != 0 {
                    let p = yj * DISPLAY_WIDTH + xi;
                    assert(p == pix(x + i as int, yy));
                    let cur = self.pixels[p];
                    if cur {
                        rowcoll = true;
                    }
                    self.pixels.set(p, !cur);
                }
                i = i + 1;
            }
            if rowcoll {
                collision = true;
            }
            proof {
                assert(self.pixels@ == draw_rows(g0, x as int, y as int, sprite@, j + 1 as int).0);
                assert(collision == draw_rows(g0, x as int, y as int, sprite@, j + 1 as int).1);
            }
            j = j + 1;
        }
        collision
    }

    fn clear(&mut self) {
        let fresh = FrameBuffer::new();
        self.pixels = fresh.pixels;
    }
}


// ---------------------------------------------------------------------------
// Laws of the XOR draw.
// ---------------------------------------------------------------------------

/// Whether one of the first `nb` bits of a row byte is set and lands on
/// pixel `p`.
pub open spec fn row_covers(x: int, y: int, row: u8, nb: int, p: int) -> bool {
    exists|i: int| 0 <= i < nb && row_bit(row, i) && p == pix(x + i, y)
}

/// Whether a set bit of the first `nr` sprite rows lands on pixel `p`.
pub open spec fn sprite_covers(x: int, y: int, sprite: Seq<u8>, nr: int, p: int) -> bool {
    exists|j: int| 0 <= j < nr && row_covers(x, y + j, sprite[j], 8, p)
}

/// Whether one of the first `nb` bits of a row byte is set and lands on
/// a lit pixel of `g`.
pub open spec fn row_hits(g: Seq<bool>, x: int, y: int, row: u8, nb: int) -> bool {
    exists|i: int| 0 <= i < nb && row_bit(row, i) && g[pix(x + i, y)]
}

/// Whether a set bit of the first `nr` sprite rows lands on a lit pixel
/// of `g`.
pub open spec fn sprite_hits(g: Seq<bool>, x: int, y: int, sprite: Seq<u8>, nr: int) -> bool {
    exists|j: int| 0 <= j < nr && row_hits(g, x, y + j, sprite[j], 8)
}

/// A pixel position decomposes uniquely into its screen row and column.
proof fn lemma_pix_parts(x: int, y: int)
    ensures
        0 <= pix(x, y) < DISPLAY_SIZE,
        pix(x, y) % 64 == x % 64,
        pix(x, y) / 64 == y % 32,
{
    vstd::arithmetic::div_mod::lemma_fundamental_div_mod_converse(pix(x, y), 64, y % 32, x % 64);
}

/// Numbers within one period of each other with equal residues are equal.
proof fn lemma_mod64_inj(a: int, b: int)
    requires
        a % 64 == b % 64,
        -64 < a - b < 64,
    ensures
        a == b,
{
    vstd::arithmetic::div_mod::lemma_fundamental_div_mod(a, 64);
    vstd::arithmetic::div_mod::lemma_fundamental_div_mod(b, 64);
}

/// Numbers within one period of each other with equal residues are equal.
proof fn lemma_mod32_inj(a: int, b: int)
    requires
        a % 32 == b % 32,
        -32 < a - b < 32,
    ensures
        a == b,
{
    vstd::arithmetic::div_mod::lemma_fundamental_div_mod(a, 32);
    vstd::arithmetic::div_mod::lemma_fundamental_div_mod(b, 32);
}

/// Plotting one row changes exactly the pixels its set bits cover, by
/// toggling them, and collides exactly when a set bit lands on a pixel
/// lit beforehand.  Holds because the row's bits land on eight distinct
/// columns, so no pixel is toggled twice.
pub proof fn lemma_draw_row_char(g: Seq<bool>, x: int, y: int, row: u8, nb: int)
    requires
        g.len() == DISPLAY_SIZE,
        0 <= nb <= 8,
    ensures
        draw_row(g, x, y, row, nb).0.len() == g.len(),
        forall|p: int|
            0 <= p < g.len() ==> draw_row(g, x, y, row, nb).0[p] == (g[p] != row_covers(
                x,
                y,
                row,
                nb,
                p,
            )),
        draw_row(g, x, y, row, nb).1 == row_hits(g, x, y, row, nb),
    decreases nb,
{
    if nb <= 0 {
        assert forall|p: int| 0 <= p < g.len() implies draw_row(g, x, y, row, nb).0[p] == (g[p]
            != row_covers(x, y, row, nb, p)) by {
            assert(!row_covers(x, y, row, nb, p));
        }
        assert(!row_hits(g, x, y, row, nb));
    } else {
        lemma_draw_row_char(g, x, y, row, nb - 1);
        let prev = draw_row(g, x, y, row, nb - 1);
        let cur = draw_row(g, x, y, row, nb);
        let i0 = nb - 1;
        let p0 = pix(x + i0, y);
        lemma_pix_parts(x + i0, y);
        assert forall|i: int| 0 <= i < nb - 1 && row_bit(row, i) implies pix(x + i, y) != p0 by {
            lemma_pix_parts(x + i, y);
            if pix(x + i, y) == p0 {
                lemma_mod64_inj(x + i, x + i0);
            }
        }
        if row_bit(row, i0) {
            assert(!row_covers(x, y, row, nb - 1, p0));
            assert(prev.0[p0] == g[p0]);
            assert forall|p: int| 0 <= p < g.len() implies cur.0[p] == (g[p] != row_covers(
                x,
                y,
                row,
                nb,
                p,
            )) by {
                if p == p0 {
                    assert(row_covers(x, y, row, nb, p0));
                } else {
                    if row_covers(x, y, row, nb, p) {
                        let i = choose|i: int|
                            0 <= i < nb && row_bit(row, i) && p == pix(x + i, y);
                        assert(i != i0);
                        assert(row_covers(x, y, row, nb - 1, p));
                    }
                    if row_covers(x, y, row, nb - 1, p) {
                        let i = choose|i: int|
                            0 <= i < nb - 1 && row_bit(row, i) && p == pix(x + i, y);
                        assert(row_covers(x, y, row, nb, p));
                    }
                }
            }
            assert(cur.1 == row_hits(g, x, y, row, nb)) by {
                if cur.1 {
                    if prev.1 {
                        let i = choose|i: int|
                            0 <= i < nb - 1 && row_bit(row, i) && g[pix(x + i, y)];
                        assert(row_hits(g, x, y, row, nb));
                    } else {
                        assert(g[p0]);
                        assert(row_hits(g, x, y, row, nb));
                    }
                }
                if row_hits(g, x, y, row, nb) {
                    let i = choose|i: int| 0 <= i < nb && row_bit(row, i) && g[pix(x + i, y)];
                    if i < nb - 1 {
                        assert(row_hits(g, x, y, row, nb - 1));
                    } else {
                        assert(g[p0]);
                    }
                }
            }
        } else {
            assert forall|p: int| 0 <= p < g.len() implies cur.0[p] == (g[p] != row_covers(
                x,
                y,
                row,
                nb,
                p,
            )) by {
                if row_covers(x, y, row, nb, p) {
                    let i = choose|i: int| 0 <= i < nb && row_bit(row, i) && p == pix(x + i, y);
                    assert(i != i0);
                    assert(row_covers(x, y, row, nb - 1, p));
                }
                if row_covers(x, y, row, nb - 1, p) {
                    let i = choose|i: int|
                        0 <= i < nb - 1 && row_bit(row, i) && p == pix(x + i, y);
                    assert(row_covers(x, y, row, nb, p));
                }
            }
            assert(cur.1 == row_hits(g, x, y, row, nb)) by {
                if row_hits(g, x, y, row, nb) {
                    let i = choose|i: int| 0 <= i < nb && row_bit(row, i) && g[pix(x + i, y)];
                    assert(i != i0);
                    assert(row_hits(g, x, y, row, nb - 1));
                }
                if row_hits(g, x, y, row, nb - 1) {
                    let i = choose|i: int|
                        0 <= i < nb - 1 && row_bit(row, i) && g[pix(x + i, y)];
                    assert(row_hits(g, x, y, row, nb));
                }
            }
        }
    }
}

/// Drawing a sprite of at most 32 rows changes exactly the pixels its
/// set bits cover, by toggling them, and collides exactly when a set
/// bit lands on a pixel lit beforehand.  Holds because distinct rows
/// land on distinct screen rows, so no pixel is toggled twice.
pub proof fn lemma_draw_rows_char(g: Seq<bool>, x: int, y: int, s: Seq<u8>, nr: int)
    requires
        g.len() == DISPLAY_SIZE,
        0 <= nr <= s.len(),
        s.len() <= 32,
    ensures
        draw_rows(g, x, y, s, nr).0.len() == g.len(),
        forall|p: int|
            0 <= p < g.len() ==> draw_rows(g, x, y, s, nr).0[p] == (g[p] != sprite_covers(
                x,
                y,
                s,
                nr,
                p,
            )),
        draw_rows(g, x, y, s, nr).1 == sprite_hits(g, x, y, s, nr),
    decreases nr,
{
    if nr <= 0 {
        assert forall|p: int| 0 <= p < g.len() implies draw_rows(g, x, y, s, nr).0[p] == (g[p]
            != sprite_covers(x, y, s, nr, p)) by {
            assert(!sprite_covers(x, y, s, nr, p));
        }
        assert(!sprite_hits(g, x, y, s, nr));
    } else {
        lemma_draw_rows_char(g, x, y, s, nr - 1);
        let prev = draw_rows(g, x, y, s, nr - 1);
        let cur = draw_rows(g, x, y, s, nr);
        let j0 = nr - 1;
        let yy = y + j0;
        lemma_draw_row_char(prev.0, x, yy, s[j0], 8);
        let rowres = draw_row(prev.0, x, yy, s[j0], 8);
        assert(cur.0 == rowres.0 && cur.1 == (prev.1 || rowres.1));

        // A pixel of row j0's screen band is covered by no earlier row.
        assert forall|p: int| row_covers(x, yy, s[j0], 8, p) implies !sprite_covers(
            x,
            y,
            s,
            nr - 1,
            p,
        ) by {
            let i = choose|i: int| 0 <= i < 8 && row_bit(s[j0], i) && p == pix(x + i, yy);
            lemma_pix_parts(x + i, yy);
            if sprite_covers(x, y, s, nr - 1, p) {
                let j = choose|j: int| 0 <= j < nr - 1 && row_covers(x, y + j, s[j], 8, p);
                let i2 = choose|i2: int|
                    0 <= i2 < 8 && row_bit(s[j], i2) && p == pix(x + i2, y + j);
                lemma_pix_parts(x + i2, y + j);
                lemma_mod32_inj(yy, y + j);
            }
        }
        assert forall|p: int| 0 <= p < g.len() implies cur.0[p] == (g[p] != sprite_covers(
            x,
            y,
            s,
            nr,
            p,
        )) by {
            if sprite_covers(x, y, s, nr, p) {
                let j = choose|j: int| 0 <= j < nr && row_covers(x, y + j, s[j], 8, p);
                if j < nr - 1 {
                    assert(sprite_covers(x, y, s, nr - 1, p));
                } else {
                    assert(row_covers(x, yy, s[j0], 8, p));
                }
            }
            if sprite_covers(x, y, s, nr - 1, p) {
                let j = choose|j: int| 0 <= j < nr - 1 && row_covers(x, y + j, s[j], 8, p);
                assert(sprite_covers(x, y, s, nr, p));
            }
            if row_covers(x, yy, s[j0], 8, p) {
                assert(sprite_covers(x, y, s, nr, p));
            }
        }
        assert(rowres.1 == row_hits(g, x, yy, s[j0], 8)) by {
            if row_hits(prev.0, x, yy, s[j0], 8) {
                let i = choose|i: int| 0 <= i < 8 && row_bit(s[j0], i) && prev.0[pix(x + i, yy)];
                lemma_pix_parts(x + i, yy);
                assert(row_covers(x, yy, s[j0], 8, pix(x + i, yy)));
                assert(g[pix(x + i, yy)]);
                assert(row_hits(g, x, yy, s[j0], 8));
            }
            if row_hits(g, x, yy, s[j0], 8) {
                let i = choose|i: int| 0 <= i < 8 && row_bit(s[j0], i) && g[pix(x + i, yy)];
                lemma_pix_parts(x + i, yy);
                assert(row_covers(x, yy, s[j0], 8, pix(x + i, yy)));
                assert(prev.0[pix(x + i, yy)]);
                assert(row_hits(prev.0, x, yy, s[j0], 8));
            }
        }
        assert(cur.1 == sprite_hits(g, x, y, s, nr)) by {
            if cur.1 {
                if prev.1 {
                    let j = choose|j: int| 0 <= j < nr - 1 && row_hits(g, x, y + j, s[j], 8);
                    assert(sprite_hits(g, x, y, s, nr));
                } else {
                    assert(row_hits(g, x, yy, s[j0], 8));
                    assert(sprite_hits(g, x, y, s, nr));
                }
            }
            if sprite_hits(g, x, y, s, nr) {
                let j = choose|j: int| 0 <= j < nr && row_hits(g, x, y + j, s[j], 8);
                if j < nr - 1 {
                    assert(sprite_hits(g, x, y, s, nr - 1));
                } else {
                    assert(row_hits(g, x, yy, s[j0], 8));
                }
            }
        }
    }
}

/// Law: drawing the same sprite twice at the same coordinates leaves
/// the display exactly as it was, because XOR-plotting is an
/// involution and no pixel is toggled twice within one draw.
pub proof fn lemma_draw_twice_restores(g: Seq<bool>, x: int, y: int, sprite: Seq<u8>)
    requires
        g.len() == DISPLAY_SIZE,
        sprite.len() <= 32,
    ensures
        spec_draw(spec_draw(g, x, y, sprite), x, y, sprite) == g,
{
    let g1 = spec_draw(g, x, y, sprite);
    lemma_draw_rows_char(g, x, y, sprite, sprite.len() as int);
    lemma_draw_rows_char(g1, x, y, sprite, sprite.len() as int);
    assert(spec_draw(g1, x, y, sprite) =~= g);
}

/// Law: if a draw reported no collision and the sprite has a set bit
/// (row `j`, bit `i`), then drawing the same sprite again at the same
/// coordinates reports a collision, since the first draw lit exactly
/// the covered pixels.
pub proof fn lemma_draw_again_collides(
    g: Seq<bool>,
    x: int,
    y: int,
    sprite: Seq<u8>,
    j: int,
    i: int,
)
    requires
        g.len() == DISPLAY_SIZE,
        sprite.len() <= 32,
        !spec_collision(g, x, y, sprite),
        0 <= j < sprite.len(),
        0 <= i < 8,
        row_bit(sprite[j], i),
    ensures
        spec_collision(spec_draw(g, x, y, sprite), x, y, sprite),
{
    let g1 = spec_draw(g, x, y, sprite);
    lemma_draw_rows_char(g, x, y, sprite, sprite.len() as int);
    lemma_draw_rows_char(g1, x, y, sprite, sprite.len() as int);
    let p = pix(x + i, y + j);
    lemma_pix_parts(x + i, y + j);
    assert(!g[p]) by {
        if g[p] {
            assert(row_hits(g, x, y + j, sprite[j], 8));
            assert(sprite_hits(g, x, y, sprite, sprite.len() as int));
        }
    }
    assert(row_covers(x, y + j, sprite[j], 8, p));
    assert(sprite_covers(x, y, sprite, sprite.len() as int, p));
    assert(g1[p]);
    assert(row_hits(g1, x, y + j, sprite[j], 8));
    assert(sprite_hits(g1, x, y, sprite, sprite.len() as int));
}


/// Law: drawing on a blank screen never reports a collision, since a
/// collision needs an already-lit pixel.
pub proof fn lemma_draw_on_blank_never_collides(x: int, y: int, sprite: Seq<u8>)
    requires
        sprite.len() <= 32,
    ensures
        !spec_collision(blank_grid(), x, y, sprite),
{
    let g = blank_grid();
    lemma_draw_rows_char(g, x, y, sprite, sprite.len() as int);
    if sprite_hits(g, x, y, sprite, sprite.len() as int) {
        let j = choose|j: int| 0 <= j < sprite.len() && row_hits(g, x, y + j, sprite[j], 8);
        let i = choose|i: int| 0 <= i < 8 && row_bit(sprite[j], i) && g[pix(x + i, y + j)];
        lemma_pix_parts(x + i, y + j);
    }
}

} // verus!
