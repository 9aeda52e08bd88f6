//! The monochrome framebuffer: a fixed 64x32 pixel grid mutated only by
//! XOR blitting and clearing, plus a dirty flag for the presentation layer.
//!
//! This module also holds the built-in font table and the mathematical
//! model of sprite drawing: which cells a sprite touches, what the grid
//! looks like afterwards, and whether the draw collided with set pixels.

use vstd::arithmetic::div_mod::{lemma_mod_add_multiples_vanish, lemma_mod_equivalence};
use vstd::arithmetic::div_mod::lemma_small_mod;
use vstd::prelude::*;

verus! {

pub const DISPLAY_WIDTH: usize = 64;

pub const DISPLAY_HEIGHT: usize = 32;

/// Number of cells in the pixel grid.
pub const GRID_LEN: usize = 2048;

/// The framebuffer: pixel states in row-major order (`y * 64 + x`) and a
/// flag telling the presentation layer that something changed since it
/// last looked.
pub struct Display {
    pub grid: Vec<bool>,
    pub dirty: bool,
}

/// Mathematical state of a framebuffer.
#[verifier::ext_equal]
pub ghost struct DisplayView {
    pub grid: Seq<bool>,
    pub dirty: bool,
}

impl View for Display {
    type V = DisplayView;

    open spec fn view(&self) -> DisplayView {
        DisplayView { grid: self.grid@, dirty: self.dirty }
    }
}

/// Position of cell (x, y) in the row-major grid, for in-range coordinates.
pub open spec fn pixel_index(x: int, y: int) -> int {
    y * (DISPLAY_WIDTH as int) + x
}

/// Effect of one XOR blit at raw coordinates (x, y): the coordinates wrap
/// into the grid, the cell is toggled when `on` holds, the dirty flag is
/// raised, and the first component reports a collision (`on` landing on an
/// already set cell).
pub open spec fn spec_set(d: DisplayView, x: int, y: int, on: bool) -> (bool, DisplayView) {
    let idx = pixel_index(x % (DISPLAY_WIDTH as int), y % (DISPLAY_HEIGHT as int));
    let cur = d.grid[idx];
    (on && cur, DisplayView { grid: d.grid.update(idx, if on { !cur } else { cur }), dirty: true })
}

/// Effect of clearing: every cell off, dirty raised.
pub open spec fn spec_clear(d: DisplayView) -> DisplayView {
    DisplayView { grid: Seq::new(GRID_LEN as nat, |i: int| false), dirty: true }
}

/// Effect of consuming the dirty flag: its value is handed out and reset,
/// the pixels stay.
pub open spec fn spec_consume_dirty(d: DisplayView) -> (bool, DisplayView) {
    (d.dirty, DisplayView { grid: d.grid, dirty: false })
}

impl Display {
    /// The grid has exactly one cell per coordinate pair.
    pub open spec fn wf(&self) -> bool {
        self.grid@.len() == GRID_LEN
    }

    /// A framebuffer starts cleared and not dirty: nothing to present yet.
    pub fn new() -> (d: Display)
        ensures
            d.wf(),
            d@.grid == Seq::new(GRID_LEN as nat, |i: int| false),
            d@.dirty == false,
    {
        let mut grid: Vec<bool> = Vec::new();
        let mut i: usize = 0;
        while i < GRID_LEN
            invariant
                i <= GRID_LEN,
                grid@ == Seq::new(i as nat, |j: int| false),
            decreases GRID_LEN - i,
        {
            grid.push(false);
            proof {
                assert(grid@ =~= Seq::new((i + 1) as nat, |j: int| false));
            }
            i = i + 1;
        }
        Display { grid, dirty: false }
    }

    /// XOR one pixel: wrap (x, y) into the grid, report whether an `on`
    /// blit hit an already set cell, toggle the cell when `on`, and mark
    /// the framebuffer dirty.
    pub fn set(&mut self, x: usize, y: usize, fill: bool) -> (collision: bool)
        requires
            old(self).wf(),
        ensures
            final(self).wf(),
            final(self)@ == spec_set(old(self)@, x as int, y as int, fill).1,
            collision == spec_set(old(self)@, x as int, y as int, fill).0,
    {
        let cx = x % DISPLAY_WIDTH;
        let cy = y % DISPLAY_HEIGHT;
        let idx = cy * DISPLAY_WIDTH + cx;
        let cur = self.grid[idx];
        let collision = fill && cur;
        self.grid[idx] = if fill {
            !cur
        } else {
            cur
        };
        self.dirty = true;
        collision
    }

    /// Switch every pixel off and mark the framebuffer dirty.
    pub fn clear(&mut self)
        requires
            old(self).wf(),
        ensures
            final(self).wf(),
            final(self)@ == spec_clear(old(self)@),
    {
        let mut i: usize = 0;
        while i < GRID_LEN
            invariant
                i <= GRID_LEN,
                self.grid@.len() == GRID_LEN,
                forall|j: int| 0 <= j < i ==> self.grid@[j] == false,
            decreases GRID_LEN - i,
        {
            self.grid[i] = false;
            i = i + 1;
        }
        self.dirty = true;
        proof {
            assert(self@ =~= spec_clear(old(self)@));
        }
    }

    /// Hand the dirty flag to the presentation layer and reset it, so a
    /// redraw happens only when something actually changed.
    pub fn consume_dirty(&mut self) -> (was_dirty: bool)
        ensures
            was_dirty == spec_consume_dirty(old(self)@).0,
            final(self)@ == spec_consume_dirty(old(self)@).1,
    {
        let was_dirty = self.dirty;
        self.dirty = false;
        was_dirty
    }

    /// Read one pixel; the presentation layer paints from this.
    pub fn pixel(&self, x: usize, y: usize) -> (on: bool)
        requires
            self.wf(),
            x < DISPLAY_WIDTH,
            y < DISPLAY_HEIGHT,
        ensures
            on == self@.grid[pixel_index(x as int, y as int)],
    {
        self.grid[y * DISPLAY_WIDTH + x]
    }
}

/// After `clear`, the first `consume_dirty` observes the mutation and any
/// later one observes nothing, until the next mutation: the handed-out
/// flag is true exactly once, and consuming leaves the pixels alone.
pub proof fn lemma_clear_dirty_once(d: DisplayView)
    ensures
        ({
            let cleared = spec_clear(d);
            let (first, after_first) = spec_consume_dirty(cleared);
            let (second, after_second) = spec_consume_dirty(after_first);
            &&& first == true
            &&& second == false
            &&& after_first.grid == cleared.grid
            &&& after_second == after_first
        }),
{
    assert(spec_consume_dirty(spec_consume_dirty(spec_clear(d)).1).1
        =~= spec_consume_dirty(spec_clear(d)).1);
}

// ---------------------------------------------------------------------------
// The sprite-draw model.
//
// A sprite is a sequence of bytes, each byte one row of 8 pixels with the
// most significant bit leftmost. Drawing XORs the sprite into the grid at
// (vx, vy), wrapping both coordinates. Because a sprite is at most 15 rows
// of 8 columns on a 32x64 grid, no two sprite bits land on the same cell,
// so the result is described cell by cell.
// ---------------------------------------------------------------------------

/// Whether bit `col` (leftmost first) of sprite row byte `b` is set.
pub open spec fn sprite_bit(b: u8, col: int) -> bool {
    (b >> ((7 - col) as u8)) & 1 == 1
}

/// The grid cell that sprite bit (row, col) lands on when drawing at
/// (vx, vy): both coordinates wrap.
pub open spec fn cell_of(vx: int, vy: int, row: int, col: int) -> int {
    pixel_index((vx + col) % (DISPLAY_WIDTH as int), (vy + row) % (DISPLAY_HEIGHT as int))
}

/// Whether one of the first `k` sprite bits, in row-major order
/// (`8 * row + col < k`), is set and lands on cell `idx`.
pub open spec fn touched_before(sprite: Seq<u8>, vx: int, vy: int, k: int, idx: int) -> bool {
    exists|r: int, c: int|
        0 <= r < sprite.len() && 0 <= c < 8 && 8 * r + c < k && sprite_bit(sprite[r], c)
            && cell_of(vx, vy, r, c) == idx
}

/// Whether some set sprite bit lands on cell `idx`.
pub open spec fn sprite_touches(sprite: Seq<u8>, vx: int, vy: int, idx: int) -> bool {
    touched_before(sprite, vx, vy, 8 * (sprite.len() as int), idx)
}

/// The grid after drawing `sprite` at (vx, vy): every touched cell is
/// toggled, every other cell keeps its state.
pub open spec fn draw_grid(g: Seq<bool>, sprite: Seq<u8>, vx: int, vy: int) -> Seq<bool> {
    Seq::new(
        g.len(),
        |idx: int|
            if sprite_touches(sprite, vx, vy, idx) {
                !g[idx]
            } else {
                g[idx]
            },
    )
}

/// Whether one of the first `k` sprite bits is set and lands on a cell
/// that is set in grid `g` — a collision, given that each cell is read
/// before the draw itself toggles it.
pub open spec fn collided_before(g: Seq<bool>, sprite: Seq<u8>, vx: int, vy: int, k: int) -> bool {
    exists|r: int, c: int|
        0 <= r < sprite.len() && 0 <= c < 8 && 8 * r + c < k && sprite_bit(sprite[r], c)
            && g[cell_of(vx, vy, r, c)]
}

/// Whether drawing `sprite` at (vx, vy) on grid `g` collides: some set
/// sprite bit lands on an already set cell.
pub open spec fn sprite_collides(g: Seq<bool>, sprite: Seq<u8>, vx: int, vy: int) -> bool {
    collided_before(g, sprite, vx, vy, 8 * (sprite.len() as int))
}

/// Two distinct in-range values with the same offset keep distinct
/// remainders: wrapping cannot merge them while they are less than a
/// modulus apart.
proof fn lemma_wrap_distinct(base: int, a: int, b: int, m: int)
    requires
        0 < m,
        0 <= a < m,
        0 <= b < m,
        a != b,
        0 <= base,
    ensures
        (base + a) % m != (base + b) % m,
{
    if (base + a) % m == (base + b) % m {
        lemma_mod_equivalence(base + a, base + b, m);
        assert((a - b) % m == 0);
        if a > b {
            lemma_small_mod((a - b) as nat, m as nat);
        } else {
            lemma_mod_add_multiples_vanish(a - b, m);
            assert((m + (a - b)) % m == (a - b) % m);
            lemma_small_mod((m + a - b) as nat, m as nat);
        }
        assert(false);
    }
}

/// Distinct sprite bits land on distinct cells: a sprite of at most 32
/// rows and 8 columns cannot wrap onto itself.
pub proof fn lemma_cell_injective(vx: int, vy: int, rows: int, r1: int, c1: int, r2: int, c2: int)
    requires
        0 <= vx,
        0 <= vy,
        rows <= DISPLAY_HEIGHT,
        0 <= r1 < rows,
        0 <= r2 < rows,
        0 <= c1 < 8,
        0 <= c2 < 8,
        !(r1 == r2 && c1 == c2),
    ensures
        cell_of(vx, vy, r1, c1) != cell_of(vx, vy, r2, c2),
{
    let w = DISPLAY_WIDTH as int;
    let h = DISPLAY_HEIGHT as int;
    let cx1 = (vx + c1) % w;
    let cx2 = (vx + c2) % w;
    let cy1 = (vy + r1) % h;
    let cy2 = (vy + r2) % h;
    assert(0 <= cx1 < w && 0 <= cx2 < w && 0 <= cy1 < h && 0 <= cy2 < h);
    if r1 != r2 {
        lemma_wrap_distinct(vy, r1, r2, h);
        assert(cy1 != cy2);
        assert(cy1 * w + cx1 != cy2 * w + cx2);
    } else {
        lemma_wrap_distinct(vx, c1, c2, w);
        assert(cx1 != cx2);
        assert(cy1 * w + cx1 != cy2 * w + cx2);
    }
}

/// The cell a sprite bit lands on has not been touched by any earlier
/// sprite bit.
pub proof fn lemma_cell_untouched(sprite: Seq<u8>, vx: int, vy: int, row: int, col: int)
    requires
        0 <= vx,
        0 <= vy,
        sprite.len() <= DISPLAY_HEIGHT,
        0 <= row < sprite.len(),
        0 <= col < 8,
    ensures
        !touched_before(sprite, vx, vy, 8 * row + col, cell_of(vx, vy, row, col)),
{
    let idx = cell_of(vx, vy, row, col);
    if touched_before(sprite, vx, vy, 8 * row + col, idx) {
        let (r, c): (int, int) = choose|r: int, c: int|
            0 <= r < sprite.len() && 0 <= c < 8 && 8 * r + c < 8 * row + col
                && sprite_bit(sprite[r], c) && cell_of(vx, vy, r, c) == idx;
        assert(!(r == row && c == col));
        lemma_cell_injective(vx, vy, sprite.len() as int, r, c, row, col);
        assert(false);
    }
}

/// Taking one more sprite bit into account touches exactly the cell of
/// that bit more, and only when the bit is set.
pub proof fn lemma_touched_step(sprite: Seq<u8>, vx: int, vy: int, row: int, col: int, idx: int)
    requires
        0 <= row < sprite.len(),
        0 <= col < 8,
    ensures
        touched_before(sprite, vx, vy, 8 * row + col + 1, idx) == (touched_before(
            sprite,
            vx,
            vy,
            8 * row + col,
            idx,
        ) || (sprite_bit(sprite[row], col) && cell_of(vx, vy, row, col) == idx)),
{
    let k = 8 * row + col;
    if touched_before(sprite, vx, vy, k + 1, idx) {
        let (r, c): (int, int) = choose|r: int, c: int|
            0 <= r < sprite.len() && 0 <= c < 8 && 8 * r + c < k + 1 && sprite_bit(sprite[r], c)
                && cell_of(vx, vy, r, c) == idx;
        if 8 * r + c == k {
            assert(r == row && c == col);
        } else {
            assert(touched_before(sprite, vx, vy, k, idx));
        }
    }
    if touched_before(sprite, vx, vy, k, idx) {
        let (r, c): (int, int) = choose|r: int, c: int|
            0 <= r < sprite.len() && 0 <= c < 8 && 8 * r + c < k && sprite_bit(sprite[r], c)
                && cell_of(vx, vy, r, c) == idx;
        assert(touched_before(sprite, vx, vy, k + 1, idx));
    }
    if sprite_bit(sprite[row], col) && cell_of(vx, vy, row, col) == idx {
        assert(touched_before(sprite, vx, vy, k + 1, idx));
    }
}

/// The same step law for the collision predicate: one more sprite bit
/// collides exactly when it is set and its cell is set in the pre-draw
/// grid.
pub proof fn lemma_collided_step(
    g: Seq<bool>,
    sprite: Seq<u8>,
    vx: int,
    vy: int,
    row: int,
    col: int,
)
    requires
        0 <= row < sprite.len(),
        0 <= col < 8,
    ensures
        collided_before(g, sprite, vx, vy, 8 * row + col + 1) == (collided_before(
            g,
            sprite,
            vx,
            vy,
            8 * row + col,
        ) || (sprite_bit(sprite[row], col) && g[cell_of(vx, vy, row, col)])),
{
    let k = 8 * row + col;
    if collided_before(g, sprite, vx, vy, k + 1) {
        let (r, c): (int, int) = choose|r: int, c: int|
            0 <= r < sprite.len() && 0 <= c < 8 && 8 * r + c < k + 1 && sprite_bit(sprite[r], c)
                && g[cell_of(vx, vy, r, c)];
        if 8 * r + c == k {
            assert(r == row && c == col);
        } else {
            assert(collided_before(g, sprite, vx, vy, k));
        }
    }
    if collided_before(g, sprite, vx, vy, k) {
        let (r, c): (int, int) = choose|r: int, c: int|
            0 <= r < sprite.len() && 0 <= c < 8 && 8 * r + c < k && sprite_bit(sprite[r], c)
                && g[cell_of(vx, vy, r, c)];
        assert(collided_before(g, sprite, vx, vy, k + 1));
    }
    if sprite_bit(sprite[row], col) && g[cell_of(vx, vy, row, col)] {
        assert(collided_before(g, sprite, vx, vy, k + 1));
    }
}

/// Drawing the same sprite twice at the same coordinates restores the
/// grid: the XOR blit is its own inverse. And whenever the second draw
/// meets a touched cell that the first draw left set, it reports a
/// collision.
pub proof fn lemma_draw_involution(g: Seq<bool>, sprite: Seq<u8>, vx: int, vy: int)
    ensures
        draw_grid(draw_grid(g, sprite, vx, vy), sprite, vx, vy) == g,
        forall|idx: int|
            0 <= idx < g.len() && sprite_touches(sprite, vx, vy, idx) && draw_grid(
                g,
                sprite,
                vx,
                vy,
            )[idx] ==> sprite_collides(draw_grid(g, sprite, vx, vy), sprite, vx, vy),
{
    let g1 = draw_grid(g, sprite, vx, vy);
    assert(draw_grid(g1, sprite, vx, vy) =~= g);
    assert forall|idx: int|
        0 <= idx < g.len() && sprite_touches(sprite, vx, vy, idx) && g1[idx] implies sprite_collides(
        g1,
        sprite,
        vx,
        vy,
    ) by {
        let (r, c): (int, int) = choose|r: int, c: int|
            0 <= r < sprite.len() && 0 <= c < 8 && 8 * r + c < 8 * (sprite.len() as int) && sprite_bit(
                sprite[r],
                c,
            ) && cell_of(vx, vy, r, c) == idx;
        assert(g1[cell_of(vx, vy, r, c)]);
        assert(collided_before(g1, sprite, vx, vy, 8 * (sprite.len() as int)));
    }
}

// ---------------------------------------------------------------------------
// The built-in font: sixteen 5-byte glyphs for the hex digits 0 to F,
// loaded at the bottom of memory when a machine is built.
// ---------------------------------------------------------------------------

/// Byte length of one font glyph.
pub const GLYPH_LEN: usize = 5;

/// Byte length of the whole font table.
pub const FONT_LEN: usize = 80;

/// The font table: glyph for digit `d` occupies bytes `5 * d` to
/// `5 * d + 4`.
pub open spec fn font_seq() -> Seq<u8> {
    seq![0xF0u8, 0x90, 0x90, 0x90, 0xF0]  // 0
    + seq![0x20u8, 0x60, 0x20, 0x20, 0x70]  // 1
    + seq![0xF0u8, 0x10, 0xF0, 0x80, 0xF0]  // 2
    + seq![0xF0u8, 0x10, 0xF0, 0x10, 0xF0]  // 3
    + seq![0x90u8, 0x90, 0xF0, 0x10, 0x10]  // 4
    + seq![0xF0u8, 0x80, 0xF0, 0x10, 0xF0]  // 5
    + seq![0xF0u8, 0x80, 0xF0, 0x90, 0xF0]  // 6
    + seq![0xF0u8, 0x10, 0x20, 0x40, 0x40]  // 7
    + seq![0xF0u8, 0x90, 0xF0, 0x90, 0xF0]  // 8
    + seq![0xF0u8, 0x90, 0xF0, 0x10, 0xF0]  // 9
    + seq![0xF0u8, 0x90, 0xF0, 0x90, 0x90]  // A
    + seq![0xE0u8, 0x90, 0xE0, 0x90, 0xE0]  // B
    + seq![0xF0u8, 0x80, 0x80, 0x80, 0xF0]  // C
    + seq![0xE0u8, 0x90, 0x90, 0x90, 0xE0]  // D
    + seq![0xF0u8, 0x80, 0xF0, 0x80, 0xF0]  // E
    + seq![0xF0u8, 0x80, 0xF0, 0x80, 0x80]  // F
}

/// Append one glyph to the table being built.
fn push_glyph(table: &mut Vec<u8>, b0: u8, b1: u8, b2: u8, b3: u8, b4: u8)
    ensures
        final(table)@ == old(table)@ + seq![b0, b1, b2, b3, b4],
{
    table.push(b0);
    table.push(b1);
    table.push(b2);
    table.push(b3);
    table.push(b4);
    proof {
        assert(table@ =~= old(table)@ + seq![b0, b1, b2, b3, b4]);
    }
}

/// Build the font table.
pub fn font_set() -> (table: Vec<u8>)
    ensures
        table@ == font_seq(),
{
    let mut table: Vec<u8> = Vec::new();
    push_glyph(&mut table, 0xF0, 0x90, 0x90, 0x90, 0xF0);
    push_glyph(&mut table, 0x20, 0x60, 0x20, 0x20, 0x70);
    push_glyph(&mut table, 0xF0, 0x10, 0xF0, 0x80, 0xF0);
    push_glyph(&mut table, 0xF0, 0x10, 0xF0, 0x10, 0xF0);
    push_glyph(&mut table, 0x90, 0x90, 0xF0, 0x10, 0x10);
    push_glyph(&mut table, 0xF0, 0x80, 0xF0, 0x10, 0xF0);
    push_glyph(&mut table, 0xF0, 0x80, 0xF0, 0x90, 0xF0);
    push_glyph(&mut table, 0xF0, 0x10, 0x20, 0x40, 0x40);
    push_glyph(&mut table, 0xF0, 0x90, 0xF0, 0x90, 0xF0);
    push_glyph(&mut table, 0xF0, 0x90, 0xF0, 0x10, 0xF0);
    push_glyph(&mut table, 0xF0, 0x90, 0xF0, 0x90, 0x90);
    push_glyph(&mut table, 0xE0, 0x90, 0xE0, 0x90, 0xE0);
    push_glyph(&mut table, 0xF0, 0x80, 0x80, 0x80, 0xF0);
    push_glyph(&mut table, 0xE0, 0x90, 0x90, 0x90, 0xE0);
    push_glyph(&mut table, 0xF0, 0x80, 0xF0, 0x80, 0xF0);
    push_glyph(&mut table, 0xF0, 0x80, 0xF0, 0x80, 0x80);
    proof {
        assert(table@ =~= font_seq());
    }
    table
}

} // verus!
