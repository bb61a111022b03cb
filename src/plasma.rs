use vstd::prelude::*;
use vstd::arithmetic::div_mod::{lemma_fundamental_div_mod, lemma_div_pos_is_pos, lemma_mod_bound};
use crate::screen::ScreenGeometry;

verus! {

/// Number of glyphs in the plasma palette.
pub const PALETTE_LEN: usize = 16;

/// The plasma palette, from the faintest glyph to the densest.
pub open spec fn palette() -> Seq<char> {
    seq!['.', ',', ';', '\'', '"', '<', '>', '/', '(', ')', '{', '}', '&', '%', '#', '@']
}

/// Palette position for a shifted intensity: the intensity is first
/// floor-divided by the palette length, then wrapped round it.
pub open spec fn glyph_index(shifted: int) -> int {
    (shifted / 16) % 16
}

/// The glyph for intensity `level` (already rounded) shifted by `shift`.
pub fn palette_glyph(level: i32, shift: i32) -> (c: char)
    ensures
        c == palette()[glyph_index(level + shift)],
{
    let glyphs: [char; 16] = ['.', ',', ';', '\'', '"', '<', '>', '/', '(', ')', '{', '}', '&', '%', '#', '@'];
    assert(glyphs@ =~= palette());
    let len = PALETTE_LEN as u64;
    let shifted: i64 = level as i64 + shift as i64;
    let index: u64 = if shifted >= 0 {
        shifted as u64 / len % len
    } else {
        // the floor quotient of a negative value is minus its ceiling quotient
        let below: u64 = (-shifted) as u64;
        let blocks: u64 = (below + (len - 1)) / len;
        assert(shifted / 16 == -(blocks as int));
        (len - blocks % len) % len
    };
    glyphs[index as usize]
}

/// Why the plasma generator refused its buffer.
#[derive(Clone, Copy, Debug, PartialEq, Eq, Structural)]
pub enum PlasmaError {
    /// The buffer holds `len` cells where the size check asks for `required`.
    BufferTooSmall { len: usize, required: u64 },
}

/// Buffer slot of the cell at `row`, `col`: rows are laid out `rows` slots
/// apart, whatever the grid's width.
pub open spec fn plasma_slot(g: ScreenGeometry, row: int, col: int) -> int {
    row * g.rows + col
}

/// The number of cells the size check asks of a plasma buffer: `rows * rows`.
pub open spec fn plasma_required_len(g: ScreenGeometry) -> int {
    g.rows * g.rows
}

/// Every slot of the grid lies below `len`.
pub open spec fn plasma_slots_fit(g: ScreenGeometry, len: int) -> bool {
    forall|row: int, col: int|
        0 <= row < g.rows && 0 <= col < g.cols ==> #[trigger] plasma_slot(g, row, col) < len
}

/// Size check the plasma generator makes before filling a buffer of `len`
/// cells: it passes exactly when `len >= rows * rows`.
pub fn check_plasma_buffer(g: ScreenGeometry, len: usize) -> (r: Result<(), PlasmaError>)
    ensures
        r is Ok <==> len >= plasma_required_len(g),
        r matches Err(PlasmaError::BufferTooSmall { len: l, required }) ==> l == len && required
            == plasma_required_len(g),
{
    assert(g.rows * g.rows <= u32::MAX * u32::MAX) by (nonlinear_arith);
    let required: u64 = g.rows as u64 * g.rows as u64;
    if (len as u64) < required {
        Err(PlasmaError::BufferTooSmall { len, required })
    } else {
        Ok(())
    }
}

/// Buffer slot of the cell at `row`, `col`.
pub fn plasma_index(g: ScreenGeometry, row: u32, col: u32) -> (slot: u64)
    ensures
        slot == plasma_slot(g, row as int, col as int),
{
    assert(row * g.rows <= u32::MAX * u32::MAX) by (nonlinear_arith);
    row as u64 * g.rows as u64 + col as u64
}

/// The glyph the plasma scene draws at `row`, `col`, from the rounded
/// intensities in `levels` and the time shift.
pub open spec fn plasma_cell_glyph(g: ScreenGeometry, levels: Seq<i32>, shift: int, row: int, col: int) -> char {
    palette()[glyph_index(levels[plasma_slot(g, row, col)] + shift)]
}

/// Maps a frame of rounded plasma intensities to the glyphs of the grid, in
/// row-major order with `cols` glyphs per row. Intensities are read at the
/// slots of `plasma_slot`.
pub fn plasma_glyphs(g: ScreenGeometry, levels: &Vec<i32>, shift: i32) -> (glyphs: Vec<char>)
    requires
        g.rows * g.cols <= usize::MAX,
        plasma_slots_fit(g, levels@.len() as int),
    ensures
        glyphs@.len() == g.rows * g.cols,
        forall|k: int|
            0 <= k < glyphs@.len() ==> #[trigger] glyphs@[k] == plasma_cell_glyph(
                g,
                levels@,
                shift as int,
                k / g.cols as int,
                k % g.cols as int,
            ),
{
    let rows = g.rows as usize;
    let cols = g.cols as usize;
    let total: usize = rows * cols;
    let mut glyphs: Vec<char> = Vec::new();
    let mut k: usize = 0;
    while k < total
        invariant
            rows == g.rows,
            cols == g.cols,
            total == g.rows * g.cols,
            k <= total,
            glyphs@.len() == k,
            plasma_slots_fit(g, levels@.len() as int),
            forall|j: int|
                0 <= j < k ==> #[trigger] glyphs@[j] == plasma_cell_glyph(
                    g,
                    levels@,
                    shift as int,
                    j / g.cols as int,
                    j % g.cols as int,
                ),
        decreases total - k,
    {
        assert(cols > 0) by (nonlinear_arith)
            requires
                k < total,
                total == rows * cols,
        ;
        let row = k / cols;
        let col = k % cols;
        let available = levels.len();
        proof {
            lemma_fundamental_div_mod(k as int, cols as int);
            lemma_mod_bound(k as int, cols as int);
            lemma_div_pos_is_pos(k as int, cols as int);
            assert(row < rows) by (nonlinear_arith)
                requires
                    k == cols * row + col,
                    0 <= col < cols,
                    k < rows * cols,
                    0 <= row,
            ;
            assert(plasma_slot(g, row as int, col as int) < levels@.len());
            assert(row * rows + col < available);
        }
        let slot = row * rows + col;
        let glyph = palette_glyph(levels[slot], shift);
        glyphs.push(glyph);
        k = k + 1;
    }
    glyphs
}

/// Filling every cell of the grid stays inside a buffer of the `rows * rows`
/// cells that the size check asks for exactly when the grid is no wider than
/// it is tall.
pub proof fn plasma_guard_fits_square(g: ScreenGeometry)
    requires
        g.rows >= 1,
        g.cols >= 1,
    ensures
        plasma_slots_fit(g, plasma_required_len(g)) <==> g.cols <= g.rows,
{
    let h = g.rows as int;
    let w = g.cols as int;
    if w <= h {
        assert forall|row: int, col: int| 0 <= row < h && 0 <= col < w implies #[trigger] plasma_slot(g, row, col)
            < plasma_required_len(g) by {
            assert(row * h + col < h * h) by (nonlinear_arith)
                requires
                    0 <= row < h,
                    0 <= col < w,
                    w <= h,
            ;
        }
    } else {
        assert((h - 1) * h + (w - 1) >= h * h) by (nonlinear_arith)
            requires
                w > h,
        ;
        assert(plasma_slot(g, h - 1, w - 1) >= plasma_required_len(g));
    }
}

} // verus!
