//! The monochrome frame buffer.
//!
//! A fixed-size grid of boolean cells, stored row-major (cell `(x, y)` at
//! index `x + y * width`). The engine mutates it only through [`FrameBuffer::clear`]
//! and [`FrameBuffer::draw`]; the host shell reads it cell by cell each repaint.
//!
//! `draw` XOR-blits a sprite: each bit of each sprite byte is one pixel of
//! one row, drawn starting at `(x mod width, y mod height)` with wraparound,
//! so out-of-range coordinates are never an error. It reports a collision
//! exactly when some cell that was set before the draw is targeted by a set
//! sprite bit.

use vstd::arithmetic::div_mod::lemma_add_mod_noop_right;
use vstd::arithmetic::div_mod::lemma_fundamental_div_mod;
use vstd::arithmetic::div_mod::lemma_fundamental_div_mod_converse;
use vstd::arithmetic::div_mod::lemma_mod_add_multiples_vanish;
use vstd::arithmetic::div_mod::lemma_mod_bound;
use vstd::arithmetic::div_mod::lemma_small_mod;
use vstd::arithmetic::div_mod::lemma_sub_mod_noop;
use vstd::arithmetic::div_mod::lemma_sub_mod_noop_right;
use vstd::prelude::*;

verus! {

/// The mathematical value of a frame buffer: its dimensions and the
/// row-major sequence of its cells.
#[verifier::ext_equal]
pub struct FbModel {
    pub width: nat,
    pub height: nat,
    pub cells: Seq<bool>,
}

impl FbModel {
    /// Well-formedness: at least one sprite byte fits across a row, the
    /// dimensions are small enough that every index computation fits in
    /// `usize` on any platform, and the cell count matches the dimensions.
    pub open spec fn wf(&self) -> bool {
        &&& 8 <= self.width <= 65535
        &&& 1 <= self.height <= 65535
        &&& self.cells.len() == self.width * self.height
    }
}

/// Bit `k` (0 = leftmost pixel, 7 = rightmost) of one sprite byte.
pub open spec fn bit_of(b: u8, k: int) -> bool {
    (b >> ((7 - k) as u8)) & 1 == 1
}

/// Whether the sprite blitted at `(x, y)` targets the cell `(cx, cy)` with a
/// set bit: under wraparound the cell corresponds to sprite row
/// `(cy - y % height + height) % height` and column
/// `(cx - x % width + width) % width`, and the sprite has a set bit there.
pub open spec fn target_bit(m: FbModel, x: int, y: int, sprite: Seq<u8>, cx: int, cy: int) -> bool {
    let w = m.width as int;
    let h = m.height as int;
    let r = (cy - y % h + h) % h;
    let k = (cx - x % w + w) % w;
    r < sprite.len() && k < 8 && bit_of(sprite[r], k)
}

/// The cells after XOR-blitting `sprite` at `(x, y)`: every targeted cell is
/// toggled, every other cell keeps its value.
pub open spec fn draw_cells(m: FbModel, x: int, y: int, sprite: Seq<u8>) -> Seq<bool> {
    Seq::new(
        m.cells.len(),
        |i: int| m.cells[i] != target_bit(m, x, y, sprite, i % (m.width as int), i / (m.width as int)),
    )
}

/// The collision flag of that blit: true iff at least one targeted cell was
/// already set before the XOR.
pub open spec fn draw_collision(m: FbModel, x: int, y: int, sprite: Seq<u8>) -> bool {
    exists|i: int|
        0 <= i < m.cells.len() && m.cells[i] && target_bit(
            m,
            x,
            y,
            sprite,
            i % (m.width as int),
            i / (m.width as int),
        )
}

/// A fixed-size monochrome pixel grid with XOR sprite drawing.
pub struct FrameBuffer {
    width: usize,
    height: usize,
    cells: Vec<bool>,
}

impl View for FrameBuffer {
    type V = FbModel;

    closed spec fn view(&self) -> FbModel {
        FbModel { width: self.width as nat, height: self.height as nat, cells: self.cells@ }
    }
}

impl FrameBuffer {
    /// A buffer of the given dimensions with every cell clear.
    pub fn new(width: usize, height: usize) -> (fb: FrameBuffer)
        requires
            8 <= width <= 65535,
            1 <= height <= 65535,
        ensures
            fb@.wf(),
            fb@.width == width,
            fb@.height == height,
            forall|i: int| 0 <= i < fb@.cells.len() ==> !fb@.cells[i],
    {
        proof {
            assert(width * height <= 65535 * 65535) by (nonlinear_arith)
                requires
                    width <= 65535,
                    height <= 65535,
            ;
        }
        let n = width * height;
        let mut cells: Vec<bool> = Vec::new();
        let mut i: usize = 0;
        while i < n
            invariant
                i <= n,
                cells@.len() == i,
                forall|j: int| 0 <= j < i ==> !cells@[j],
            decreases n - i,
        {
            cells.push(false);
            i = i + 1;
        }
        FrameBuffer { width, height, cells }
    }

    /// The grid width in cells.
    pub fn width(&self) -> (r: usize)
        ensures
            r == self@.width,
    {
        self.width
    }

    /// The grid height in cells.
    pub fn height(&self) -> (r: usize)
        ensures
            r == self@.height,
    {
        self.height
    }

    /// Read one cell.
    pub fn get(&self, x: usize, y: usize) -> (r: bool)
        requires
            self@.wf(),
            x < self@.width,
            y < self@.height,
        ensures
            r == self@.cells[x + y * self@.width],
    {
        proof {
            let gw = self@.width;
            let gh = self@.height;
            assert(x + y * (gw as int) < gw * gh && gw * gh <= 65535 * 65535) by (nonlinear_arith)
                requires
                    x < gw,
                    y < gh,
                    0 < gw,
                    gw <= 65535,
                    gh <= 65535,
            ;
            assert(x + y * (self@.width as int) < self@.cells.len());
        }
        self.cells[x + y * self.width]
    }

    /// Set every cell to false; dimensions are unchanged.
    pub fn clear(&mut self)
        requires
            old(self)@.wf(),
        ensures
            final(self)@.wf(),
            final(self)@.width == old(self)@.width,
            final(self)@.height == old(self)@.height,
            final(self)@.cells.len() == old(self)@.cells.len(),
            forall|i: int| 0 <= i < final(self)@.cells.len() ==> !final(self)@.cells[i],
    {
        let n = self.cells.len();
        let mut i: usize = 0;
        while i < n
            invariant
                i <= n,
                self.width == old(self).width,
                self.height == old(self).height,
                self.cells@.len() == n,
                forall|j: int| 0 <= j < i ==> !self.cells@[j],
            decreases n - i,
        {
            self.cells.set(i, false);
            i = i + 1;
        }
    }

    /// XOR-blit `sprite` at `(x, y)` with wraparound and report collision.
    ///
    /// Any coordinates are accepted: drawing starts at
    /// `(x mod width, y mod height)`, so out-of-range values wrap rather
    /// than fail. Every cell targeted by a set sprite bit is toggled; all
    /// other cells keep their value. The result is true iff at least one
    /// targeted cell was already set before the XOR.
    pub fn draw(&mut self, x: usize, y: usize, sprite: &Vec<u8>) -> (collision: bool)
        requires
            old(self)@.wf(),
            sprite@.len() <= old(self)@.height,
        ensures
            final(self)@.wf(),
            final(self)@.width == old(self)@.width,
            final(self)@.height == old(self)@.height,
            final(self)@.cells == draw_cells(old(self)@, x as int, y as int, sprite@),
            collision == draw_collision(old(self)@, x as int, y as int, sprite@),
    {
        proof {
            let gw = old(self)@.width;
            let gh = old(self)@.height;
            assert(gw * gh <= 65535 * 65535) by (nonlinear_arith)
                requires
                    gw <= 65535,
                    gh <= 65535,
            ;
        }
        let w = self.width;
        let h = self.height;
        let x0 = x % w;
        let y0 = y % h;
        let n = self.cells.len();
        let mut newcells: Vec<bool> = Vec::new();
        let mut collision = false;
        let mut i: usize = 0;
        while i < n
            invariant
                i <= n,
                w == old(self)@.width,
                h == old(self)@.height,
                x0 == (x as int) % (w as int),
                y0 == (y as int) % (h as int),
                self.width == old(self).width,
                self.height == old(self).height,
                self.cells@ == old(self)@.cells,
                n <= 65535 * 65535,
                old(self)@.wf(),
                sprite@.len() <= h,
                n == self.cells@.len(),
                newcells@.len() == i,
                forall|j: int|
                    0 <= j < i ==> newcells@[j] == (self.cells@[j] != target_bit(
                        old(self)@,
                        x as int,
                        y as int,
                        sprite@,
                        j % (w as int),
                        j / (w as int),
                    )),
                collision == exists|j: int|
                    0 <= j < i && self.cells@[j] && target_bit(
                        old(self)@,
                        x as int,
                        y as int,
                        sprite@,
                        j % (w as int),
                        j / (w as int),
                    ),
            decreases n - i,
        {
            let cx = i % w;
            let cy = i / w;
            proof {
                assert((i as int) / (w as int) <= i as int) by (nonlinear_arith)
                    requires
                        1 <= w as int,
                        0 <= i as int,
                ;
            }
            let r = (cy + h - y0) % h;
            let k = (cx + w - x0) % w;
            let bit: bool = if r < sprite.len() && k < 8 {
                let shift: u8 = (7 - k) as u8;
                (sprite[r] >> shift) & 1 == 1
            } else {
                false
            };
            proof {
                assert(bit == target_bit(
                    old(self)@,
                    x as int,
                    y as int,
                    sprite@,
                    i as int % (w as int),
                    i as int / (w as int),
                ));
            }
            let prev = self.cells[i];
            if prev && bit {
                collision = true;
            }
            newcells.push(prev != bit);
            i = i + 1;
        }
        self.cells = newcells;
        proof {
            assert(self@.cells =~= draw_cells(old(self)@, x as int, y as int, sprite@));
        }
        collision
    }
}

/// Drawing the same sprite at the same location twice restores every cell:
/// the XOR blit is its own inverse, so the second draw clears exactly the
/// cells the first one set and restores the ones it cleared.
pub proof fn lemma_draw_twice(m: FbModel, x: int, y: int, sprite: Seq<u8>)
    requires
        m.wf(),
    ensures
        draw_cells(
            (FbModel { width: m.width, height: m.height, cells: draw_cells(m, x, y, sprite) }),
            x,
            y,
            sprite,
        ) == m.cells,
{
    let m1 = FbModel { width: m.width, height: m.height, cells: draw_cells(m, x, y, sprite) };
    assert(draw_cells(m1, x, y, sprite) =~= m.cells);
}

/// Shifting a point by an offset below the modulus and recovering the
/// offset from the shifted point cancel out.
proof fn lemma_mod_offset_cancel(y: int, r: int, h: int)
    requires
        0 <= y,
        0 <= r < h,
    ensures
        ((y + r) % h - y % h + h) % h == r,
{
    lemma_mod_add_multiples_vanish((y + r) % h - y % h, h);
    lemma_sub_mod_noop(y + r, y, h);
    lemma_small_mod(r as nat, h as nat);
}

/// Recovering an offset from a point and shifting by it again yields the
/// point back.
proof fn lemma_mod_offset_uncancel(y: int, c: int, h: int)
    requires
        0 <= y,
        0 <= c < h,
    ensures
        (y + ((c - y % h + h) % h)) % h == c,
{
    lemma_add_mod_noop_right(y, c - y % h + h, h);
    lemma_mod_add_multiples_vanish(y + c - y % h, h);
    lemma_sub_mod_noop_right(y + c, y, h);
    lemma_small_mod(c as nat, h as nat);
}

/// The collision flag in sprite coordinates: the blit collides iff some
/// sprite row `r` has a set bit `b` whose destination cell
/// `((x + b) mod width, (y + r) mod height)` was already set before the
/// XOR.
pub proof fn lemma_collision_iff_targeted(m: FbModel, x: int, y: int, sprite: Seq<u8>)
    requires
        m.wf(),
        sprite.len() <= m.height,
        0 <= x,
        0 <= y,
    ensures
        draw_collision(m, x, y, sprite) <==> exists|r: int, b: int|
            0 <= r < sprite.len() && 0 <= b < 8 && bit_of(sprite[r], b) && m.cells[(x + b) % (
            m.width as int) + ((y + r) % (m.height as int)) * (m.width as int)],
{
    let w = m.width as int;
    let h = m.height as int;
    if exists|r: int, b: int|
        0 <= r < sprite.len() && 0 <= b < 8 && bit_of(sprite[r], b) && m.cells[(x + b) % w + ((y
            + r) % h) * w] {
        let (r, b) = choose|r: int, b: int|
            0 <= r < sprite.len() && 0 <= b < 8 && bit_of(sprite[r], b) && m.cells[(x + b) % w + ((
            y + r) % h) * w];
        let cx = (x + b) % w;
        let cy = (y + r) % h;
        lemma_mod_bound(x + b, w);
        lemma_mod_bound(y + r, h);
        let i = cx + cy * w;
        assert(0 <= cx + cy * w < w * h) by (nonlinear_arith)
            requires
                0 <= cx < w,
                0 <= cy < h,
        ;
        lemma_fundamental_div_mod_converse(i, w, cy, cx);
        lemma_mod_offset_cancel(y, r, h);
        lemma_mod_offset_cancel(x, b, w);
        assert(target_bit(m, x, y, sprite, i % w, i / w));
        assert(draw_collision(m, x, y, sprite));
    }
    if draw_collision(m, x, y, sprite) {
        let i = choose|i: int|
            0 <= i < m.cells.len() && m.cells[i] && target_bit(m, x, y, sprite, i % w, i / w);
        let cx = i % w;
        let cy = i / w;
        lemma_mod_bound(i, w);
        lemma_fundamental_div_mod(i, w);
        assert(0 <= cy < h) by (nonlinear_arith)
            requires
                w * cy + cx == i,
                0 <= i < w * h,
                0 <= cx < w,
                0 < w,
        ;
        let r = (cy - y % h + h) % h;
        let b = (cx - x % w + w) % w;
        lemma_mod_offset_uncancel(y, cy, h);
        lemma_mod_offset_uncancel(x, cx, w);
        assert((y + r) % h == cy);
        assert((x + b) % w == cx);
        assert(m.cells[(x + b) % w + ((y + r) % h) * w]);
        assert(0 <= r < sprite.len() && 0 <= b < 8 && bit_of(sprite[r], b));
    }
}

/// Horizontal wraparound: blitting at `x = width + k` is identical, cell for
/// cell and in its collision flag, to blitting at `x = k`.
pub proof fn lemma_draw_wraparound(m: FbModel, k: int, y: int, sprite: Seq<u8>)
    requires
        m.wf(),
        0 <= k,
    ensures
        draw_cells(m, m.width + k, y, sprite) == draw_cells(m, k, y, sprite),
        draw_collision(m, m.width + k, y, sprite) == draw_collision(m, k, y, sprite),
{
    let w = m.width as int;
    lemma_mod_add_multiples_vanish(k, w);
    assert((w + k) % w == k % w);
    assert forall|cx: int, cy: int|
        target_bit(m, m.width + k, y, sprite, cx, cy) == target_bit(m, k, y, sprite, cx, cy) by {
        assert((m.width + k) % w == (w + k) % w);
    }
    assert(draw_cells(m, m.width + k, y, sprite) =~= draw_cells(m, k, y, sprite));
    assert(draw_collision(m, m.width + k, y, sprite) == draw_collision(m, k, y, sprite)) by {
        if draw_collision(m, m.width + k, y, sprite) {
            let i = choose|i: int|
                0 <= i < m.cells.len() && m.cells[i] && target_bit(
                    m,
                    m.width + k,
                    y,
                    sprite,
                    i % w,
                    i / w,
                );
            assert(m.cells[i] && target_bit(m, k, y, sprite, i % w, i / w));
        }
        if draw_collision(m, k, y, sprite) {
            let i = choose|i: int|
                0 <= i < m.cells.len() && m.cells[i] && target_bit(m, k, y, sprite, i % w, i / w);
            assert(m.cells[i] && target_bit(m, m.width + k, y, sprite, i % w, i / w));
        }
    }
}

} // verus!
