use vstd::prelude::*;

verus! {

/// The 64x32 monochrome framebuffer, stored row-major: the pixel at column
/// `x` and row `y` sits at index `y * 64 + x`, and every cell holds `0` or
/// `1`.
///
/// The two mutating operations are [`Display::clear_buffer`] (all pixels to
/// `0`) and [`Display::write_buffer`], which composites a sprite by XOR with
/// wraparound and reports whether any lit pixel was erased.
pub struct Display {
    buffer: [u8; 2048],
}

/// Every cell of a framebuffer holds a one-bit pixel value.
pub open spec fn fb_wf(fb: Seq<u8>) -> bool {
    &&& fb.len() == 2048
    &&& forall|p: int| 0 <= p < 2048 ==> fb[p] == 0 || fb[p] == 1
}

/// Bit `j` (0 = leftmost, most significant) of one sprite row byte.
pub open spec fn sprite_bit(row: u8, j: int) -> u8 {
    (row >> ((7 - j) as u8)) & 1
}

/// Screen column hit by sprite column `j` of a sprite drawn at column `x`:
/// coordinates wrap modulo the screen width.
pub open spec fn target_col(x: int, j: int) -> int {
    (x + j) % 64
}

/// Screen row hit by sprite row `i` of a sprite drawn at row `y`.
pub open spec fn target_row(y: int, i: int) -> int {
    (y + i) % 32
}

/// Framebuffer index hit by sprite cell `(i, j)` of a sprite drawn at
/// `(x, y)`.
pub open spec fn target_index(x: int, y: int, i: int, j: int) -> int {
    target_row(y, i) * 64 + target_col(x, j)
}

/// Cells strictly before row `i`, column `j` in the row-major drawing order.
pub open spec fn cell_done(i: int, j: int, ci: int, cj: int) -> bool {
    ci < i || (ci == i && cj < j)
}

/// The value of pixel `p` once the sprite cells before row `i`, column `j`
/// have been composited onto `fb`.
///
/// A pixel is hit by at most one sprite cell as long as the sprite has at
/// most 32 rows: each of the 8 sprite columns lands on a distinct screen
/// column, and each sprite row on a distinct screen row.  The hitting cell,
/// if any, is recovered here from the pixel's coordinates.
pub open spec fn pixel_upto(fb: Seq<u8>, x: int, y: int, sprite: Seq<u8>, i: int, j: int, p: int) -> u8 {
    let px = p % 64;
    let py = p / 64;
    let cj = (px - x % 64 + 64) % 64;
    let ci = (py - y % 32 + 32) % 32;
    if cj < 8 && ci < sprite.len() && cell_done(i, j, ci, cj) {
        fb[p] ^ sprite_bit(sprite[ci], cj)
    } else {
        fb[p]
    }
}

/// The framebuffer once the sprite cells before row `i`, column `j` have
/// been composited onto `fb`.
pub open spec fn draw_upto(fb: Seq<u8>, x: int, y: int, sprite: Seq<u8>, i: int, j: int) -> Seq<u8> {
    Seq::new(2048, |p: int| pixel_upto(fb, x, y, sprite, i, j, p))
}

/// The framebuffer after a whole sprite draw: each sprite cell XORs its bit
/// into the pixel it hits, with wraparound; all other pixels keep their
/// value.
pub open spec fn draw_spec(fb: Seq<u8>, x: int, y: int, sprite: Seq<u8>) -> Seq<u8> {
    draw_upto(fb, x, y, sprite, sprite.len() as int, 0)
}

/// Collision over the cells before row `i`, column `j`: some already-lit
/// pixel was hit by a set sprite bit (and hence erased by the XOR).
pub open spec fn collision_upto(fb: Seq<u8>, x: int, y: int, sprite: Seq<u8>, i: int, j: int) -> bool {
    exists|ci: int, cj: int|
        0 <= ci < sprite.len() && 0 <= cj < 8 && cell_done(i, j, ci, cj)
            && fb[target_index(x, y, ci, cj)] == 1 && sprite_bit(sprite[ci], cj) == 1
}

/// A whole sprite draw reports a collision exactly when some set sprite bit
/// lands on a pixel that was already lit.
pub open spec fn collision_spec(fb: Seq<u8>, x: int, y: int, sprite: Seq<u8>) -> bool {
    collision_upto(fb, x, y, sprite, sprite.len() as int, 0)
}

/// A sprite cell's target pixel is in range, and the cell is recovered from
/// the target's coordinates, so distinct cells hit distinct pixels.
proof fn lemma_target_inverse(x: int, y: int, n: int, i: int, j: int)
    requires
        0 <= x < 256,
        0 <= y < 256,
        0 <= i < n <= 32,
        0 <= j < 8,
    ensures
        0 <= target_index(x, y, i, j) < 2048,
        target_index(x, y, i, j) % 64 == target_col(x, j),
        target_index(x, y, i, j) / 64 == target_row(y, i),
        (target_col(x, j) - x % 64 + 64) % 64 == j,
        (target_row(y, i) - y % 32 + 32) % 32 == i,
{
    let c = target_col(x, j);
    let r = target_row(y, i);
    assert(0 <= c < 64);
    assert(0 <= r < 32);
    assert((r * 64 + c) % 64 == c) by (nonlinear_arith)
        requires
            0 <= c < 64,
            0 <= r < 32,
    ;
    assert((r * 64 + c) / 64 == r) by (nonlinear_arith)
        requires
            0 <= c < 64,
            0 <= r < 32,
    ;
    let m = x % 64;
    assert(c == (m + j) % 64) by (nonlinear_arith)
        requires
            c == (x + j) % 64,
            m == x % 64,
            0 <= x,
            0 <= j < 8,
    ;
    let my = y % 32;
    assert(r == (my + i) % 32) by (nonlinear_arith)
        requires
            r == (y + i) % 32,
            my == y % 32,
            0 <= y,
            0 <= i < 32,
    ;
}

/// One-bit XOR stays one-bit and erases exactly when both bits are set.
proof fn lemma_xor_bit(a: u8, b: u8)
    by (bit_vector)
    requires
        a == 0 || a == 1,
        b == 0 || b == 1,
    ensures
        (a ^ b) == 0 || (a ^ b) == 1,
        (a ^ b) == 0 <==> a == b,
{
}

/// A masked single-bit extraction is one-bit.
proof fn lemma_sprite_bit_range(row: u8, s: u8)
    by (bit_vector)
    ensures
        ((row >> s) & 1) == 0 || ((row >> s) & 1) == 1,
{
}

/// XOR is its own inverse on a byte.
proof fn lemma_xor_involution(a: u8, b: u8)
    by (bit_vector)
    ensures
        (a ^ b) ^ b == a,
{
}

/// Drawing on a blank framebuffer never reports a collision: a collision
/// needs an already-lit pixel under a set sprite bit, and no pixel is lit.
pub proof fn lemma_draw_on_blank_no_collision(fb: Seq<u8>, x: int, y: int, sprite: Seq<u8>)
    requires
        fb.len() == 2048,
        forall|p: int| 0 <= p < 2048 ==> fb[p] == 0,
        0 <= x < 256,
        0 <= y < 256,
    ensures
        !collision_spec(fb, x, y, sprite),
{
    if collision_spec(fb, x, y, sprite) {
        let (ci, cj) = choose|ci: int, cj: int|
            0 <= ci < sprite.len() && 0 <= cj < 8 && cell_done(sprite.len() as int, 0, ci, cj)
                && fb[target_index(x, y, ci, cj)] == 1 && sprite_bit(sprite[ci], cj) == 1;
        assert(0 <= target_index(x, y, ci, cj) < 2048);
    }
}

/// Drawing the same sprite twice at the same coordinate restores the
/// framebuffer (XOR is self-inverse), and the second draw reports a
/// collision exactly when the first draw lit some pixel.
pub proof fn lemma_draw_twice_restores(fb: Seq<u8>, x: int, y: int, sprite: Seq<u8>)
    requires
        fb_wf(fb),
        0 <= x < 256,
        0 <= y < 256,
        sprite.len() <= 32,
    ensures
        draw_spec(draw_spec(fb, x, y, sprite), x, y, sprite) == fb,
        collision_spec(draw_spec(fb, x, y, sprite), x, y, sprite) <==> (exists|i: int, j: int|
            0 <= i < sprite.len() && 0 <= j < 8 && sprite_bit(sprite[i], j) == 1
                && fb[target_index(x, y, i, j)] == 0),
{
    let n = sprite.len() as int;
    let fb1 = draw_spec(fb, x, y, sprite);
    assert forall|p: int| 0 <= p < 2048 implies
        draw_spec(fb1, x, y, sprite)[p] == fb[p] by {
        let cj = (p % 64 - x % 64 + 64) % 64;
        let ci = (p / 64 - y % 32 + 32) % 32;
        if cj < 8 && ci < n {
            lemma_xor_involution(fb[p], sprite_bit(sprite[ci], cj));
        }
    }
    assert(draw_spec(fb1, x, y, sprite) =~= fb);
    if collision_spec(fb1, x, y, sprite) {
        let (ci, cj) = choose|ci: int, cj: int|
            0 <= ci < n && 0 <= cj < 8 && cell_done(n, 0, ci, cj)
                && fb1[target_index(x, y, ci, cj)] == 1 && sprite_bit(sprite[ci], cj) == 1;
        let t = target_index(x, y, ci, cj);
        lemma_target_inverse(x, y, n, ci, cj);
        assert(fb1[t] == fb[t] ^ sprite_bit(sprite[ci], cj));
        lemma_xor_bit(fb[t], 1);
        assert(fb[t] == 0);
        assert(0 <= ci < sprite.len() && 0 <= cj < 8 && sprite_bit(sprite[ci], cj) == 1
            && fb[target_index(x, y, ci, cj)] == 0);
    }
    if exists|i: int, j: int| 0 <= i < sprite.len() && 0 <= j < 8
        && sprite_bit(sprite[i], j) == 1 && fb[target_index(x, y, i, j)] == 0 {
        let (ci, cj) = choose|ci: int, cj: int|
            0 <= ci < sprite.len() && 0 <= cj < 8 && sprite_bit(sprite[ci], cj) == 1
                && fb[target_index(x, y, ci, cj)] == 0;
        let t = target_index(x, y, ci, cj);
        lemma_target_inverse(x, y, n, ci, cj);
        assert(fb1[t] == fb[t] ^ sprite_bit(sprite[ci], cj));
        lemma_xor_bit(fb[t], 1);
        assert(fb1[t] == 1);
        assert(cell_done(n, 0, ci, cj));
        assert(collision_spec(fb1, x, y, sprite));
    }
}

impl Display {
    /// The framebuffer contents, row-major.
    pub closed spec fn view(&self) -> Seq<u8> {
        self.buffer@
    }

    pub open spec fn wf(&self) -> bool {
        fb_wf(self@)
    }

    /// A blank screen.
    pub fn new() -> (d: Display)
        ensures
            d.wf(),
            forall|p: int| 0 <= p < 2048 ==> d@[p] == 0,
    {
        Display { buffer: [0; 2048] }
    }

    /// Reset every pixel to `0`.
    pub fn clear_buffer(&mut self)
        ensures
            final(self).wf(),
            forall|p: int| 0 <= p < 2048 ==> final(self)@[p] == 0,
    {
        self.buffer = [0; 2048];
    }

    /// Read one pixel.
    pub fn pixel(&self, x: usize, y: usize) -> (v: u8)
        requires
            x < 64,
            y < 32,
        ensures
            v == self@[y * 64 + x],
    {
        self.buffer[y * 64 + x]
    }

    /// Composite a sprite whose rows are `sprite` (one byte = 8 pixels, most
    /// significant bit leftmost) at column `x`, row `y`, wrapping modulo the
    /// screen size; every covered pixel is XORed with the sprite bit.
    /// Returns `true` exactly when some already-lit pixel was erased.
    ///
    /// A sprite longer than 32 rows would make two rows land on the same
    /// screen line; the interpreter only ever draws up to 15 rows.
    pub fn write_buffer(&mut self, x: u8, y: u8, sprite: &Vec<u8>) -> (collision: bool)
        requires
            old(self).wf(),
            sprite@.len() <= 32,
        ensures
            final(self).wf(),
            final(self)@ == draw_spec(old(self)@, x as int, y as int, sprite@),
            collision == collision_spec(old(self)@, x as int, y as int, sprite@),
    {
        let ghost fb0 = self@;
        let ghost xs = x as int;
        let ghost ys = y as int;
        let mut collision = false;
        let n = sprite.len();
        let mut i: usize = 0;
        while i < n
            invariant
                n == sprite@.len() <= 32,
                i <= n,
                fb_wf(fb0),
                xs == x as int,
                ys == y as int,
                self@ =~= draw_upto(fb0, xs, ys, sprite@, i as int, 0),
                collision == collision_upto(fb0, xs, ys, sprite@, i as int, 0),
                fb_wf(self@),
            decreases n - i,
        {
            let row = sprite[i];
            let mut j: usize = 0;
            while j < 8
                invariant
                    n == sprite@.len() <= 32,
                    i < n,
                    j <= 8,
                    row == sprite@[i as int],
                    fb_wf(fb0),
                    xs == x as int,
                    ys == y as int,
                    self@ =~= draw_upto(fb0, xs, ys, sprite@, i as int, j as int),
                    collision == collision_upto(fb0, xs, ys, sprite@, i as int, j as int),
                    fb_wf(self@),
                decreases 8 - j,
            {
                let px = ((x as usize) + j) % 64;
                let py = ((y as usize) + i) % 32;
                let idx = py * 64 + px;
                proof {
                    lemma_target_inverse(xs, ys, n as int, i as int, j as int);
                    assert(px as int == target_col(xs, j as int));
                    assert(py as int == target_row(ys, i as int));
                    assert(idx as int == target_index(xs, ys, i as int, j as int));
                }
                let curr = self.buffer[idx];
                let bit = (row >> ((7 - j) as u8)) & 1;
                proof {
                    lemma_sprite_bit_range(row, (7 - j as int) as u8);
                    assert(bit == sprite_bit(sprite@[i as int], j as int));
                    // The cell (i, j) is not yet composited, so the pixel it
                    // hits still holds its original value.
                    assert(curr == fb0[idx as int]);
                    lemma_xor_bit(curr, bit);
                }
                self.buffer[idx] = curr ^ bit;
                if curr == 1 && bit == 1 {
                    collision = true;
                }
                proof {
                    let gi = i as int;
                    let gj = j as int;
                    let p0 = target_index(xs, ys, gi, gj);
                    assert forall|p: int| 0 <= p < 2048 implies
                        self@[p] == pixel_upto(fb0, xs, ys, sprite@, gi, gj + 1, p) by {
                        if p != p0 {
                            // A pixel other than the one cell (i, j) hits is
                            // described by the same cell, or none, as before.
                            assert(self@[p] == pixel_upto(fb0, xs, ys, sprite@, gi, gj, p));
                        }
                    }
                    assert(self@ =~= draw_upto(fb0, xs, ys, sprite@, gi, gj + 1));
                    // The collision flag accounts for exactly one more cell.
                    if collision_upto(fb0, xs, ys, sprite@, gi, gj + 1) {
                        let (ci, cj) = choose|ci: int, cj: int|
                            0 <= ci < sprite@.len() && 0 <= cj < 8 && cell_done(gi, gj + 1, ci, cj)
                                && fb0[target_index(xs, ys, ci, cj)] == 1
                                && sprite_bit(sprite@[ci], cj) == 1;
                        if !(ci == gi && cj == gj) {
                            assert(cell_done(gi, gj, ci, cj));
                            assert(collision_upto(fb0, xs, ys, sprite@, gi, gj));
                        }
                        assert(collision);
                    }
                    if collision {
                        if collision_upto(fb0, xs, ys, sprite@, gi, gj) {
                            let (ci, cj) = choose|ci: int, cj: int|
                                0 <= ci < sprite@.len() && 0 <= cj < 8 && cell_done(gi, gj, ci, cj)
                                    && fb0[target_index(xs, ys, ci, cj)] == 1
                                    && sprite_bit(sprite@[ci], cj) == 1;
                            assert(cell_done(gi, gj + 1, ci, cj));
                            assert(collision_upto(fb0, xs, ys, sprite@, gi, gj + 1));
                        } else {
                            // The flag was set on this very cell.
                            assert(curr == 1 && bit == 1);
                            assert(cell_done(gi, gj + 1, gi, gj)
                                && fb0[target_index(xs, ys, gi, gj)] == 1
                                && sprite_bit(sprite@[gi], gj) == 1);
                            assert(collision_upto(fb0, xs, ys, sprite@, gi, gj + 1));
                        }
                    }
                }
                j += 1;
            }
            proof {
                assert(self@ =~= draw_upto(fb0, xs, ys, sprite@, i as int + 1, 0));
                assert(collision_upto(fb0, xs, ys, sprite@, i as int, 8)
                    == collision_upto(fb0, xs, ys, sprite@, i as int + 1, 0)) by {
                    if collision_upto(fb0, xs, ys, sprite@, i as int, 8) {
                        let (ci, cj) = choose|ci: int, cj: int|
                            0 <= ci < sprite@.len() && 0 <= cj < 8 && cell_done(i as int, 8, ci, cj)
                                && fb0[target_index(xs, ys, ci, cj)] == 1
                                && sprite_bit(sprite@[ci], cj) == 1;
                        assert(cell_done(i as int + 1, 0, ci, cj));
                        assert(collision_upto(fb0, xs, ys, sprite@, i as int + 1, 0));
                    }
                    if collision_upto(fb0, xs, ys, sprite@, i as int + 1, 0) {
                        let (ci, cj) = choose|ci: int, cj: int|
                            0 <= ci < sprite@.len() && 0 <= cj < 8 && cell_done(i as int + 1, 0, ci, cj)
                                && fb0[target_index(xs, ys, ci, cj)] == 1
                                && sprite_bit(sprite@[ci], cj) == 1;
                        assert(cell_done(i as int, 8, ci, cj));
                        assert(collision_upto(fb0, xs, ys, sprite@, i as int, 8));
                    }
                }
            }
            i += 1;
        }
        proof {
            assert(self@ =~= draw_spec(fb0, xs, ys, sprite@));
        }
        collision
    }
}

impl Default for Display {
    /// A blank screen.
    fn default() -> (d: Display)
        ensures
            d.wf(),
            forall|p: int| 0 <= p < 2048 ==> d@[p] == 0,
    {
        Display::new()
    }
}

} // verus!
