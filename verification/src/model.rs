//! The mathematical model of the renderer: a ghost snapshot of the screen
//! state, the per-byte ingestion step, the scroll transformation, and the
//! flusher's effect on the cell region, all as spec functions.

use vstd::prelude::*;

use crate::vga_buf::Alignment;

verus! {

/// Ghost snapshot of a `Screen`.
///
/// The cell region is a flat sequence of 4000 bytes: cell `i` is the pair at
/// byte offsets `2*i` (glyph) and `2*i + 1` (attribute), for `i` in `[0, 2000)`.
/// The shadow grid is a flat sequence of 2000 glyph bytes, row-major: 25 rows
/// of 80 bytes each. A 0 byte in a row marks the row terminator; bytes before
/// the first 0 are the row's visible glyphs.
#[verifier::ext_equal]
pub ghost struct ScreenView {
    /// The 4000 bytes of the cell region.
    pub cells: Seq<u8>,
    /// The 2000 glyph bytes of the shadow grid.
    pub grid: Seq<u8>,
    /// The attribute byte stored with every cell the flusher writes.
    pub color: u8,
    /// The horizontal alignment policy.
    pub align: Alignment,
    /// Write position: the row the next glyph lands in.
    pub row: int,
    /// Write position: the column the next glyph lands in.
    pub col: int,
    /// The flat flush cursor, rebuilt from zero on every flush.
    pub cursor_write: int,
}

impl ScreenView {
    /// Well-formedness: the two buffers have their fixed sizes and the write
    /// position is in range. Ingestion only ever leaves the row at 23 or
    /// below: reaching 24 triggers a scroll, which puts it back to 23.
    pub open spec fn wf(self) -> bool {
        &&& self.cells.len() == 4000
        &&& self.grid.len() == 2000
        &&& 0 <= self.row < 24
        &&& 0 <= self.col < 80
        &&& 0 <= self.cursor_write
    }

    /// Every attribute byte of the cell region equals the configured color.
    pub open spec fn attrs_uniform(self) -> bool {
        forall|i: int| 0 <= i < 2000 ==> #[trigger] self.cells[2 * i + 1] == self.color
    }
}

/// Row `r` of the shadow grid as an 80-byte sequence.
pub open spec fn row_at(grid: Seq<u8>, r: int) -> Seq<u8> {
    grid.subrange(80 * r, 80 * r + 80)
}

/// Index of the first 0 byte of `row` at or after position `i`, or 80 when
/// no 0 follows.
pub open spec fn first_zero_from(row: Seq<u8>, i: int) -> int
    decreases 80 - i,
{
    if i < 0 || i >= 80 {
        80
    } else if row[i] == 0 {
        i
    } else {
        first_zero_from(row, i + 1)
    }
}

/// Visible length of an 80-byte row: the index of its first 0 byte, or 80
/// when the row holds no terminator.
pub open spec fn vis_len(row: Seq<u8>) -> int {
    first_zero_from(row, 0)
}

/// The visible glyphs of shadow row `r`: the bytes before the terminator.
pub open spec fn visible(grid: Seq<u8>, r: int) -> Seq<u8> {
    row_at(grid, r).take(vis_len(row_at(grid, r)))
}

/// Leading pad emitted before a row of visible length `len`.
pub open spec fn pad_for(align: Alignment, len: int) -> int {
    match align {
        Alignment::Left => 0,
        Alignment::Right => 80 - len,
        Alignment::Center => (80 - len) / 2,
    }
}

/// The shadow grid after a scroll: rows 0..=22 take the contents of rows
/// 1..=23, row 23 keeps its previous contents, and row 24 becomes 80 space
/// bytes with no terminator.
pub open spec fn scrolled(grid: Seq<u8>) -> Seq<u8> {
    Seq::new(
        2000,
        |i: int|
            if i < 1840 {
                grid[i + 80]
            } else if i < 1920 {
                grid[i]
            } else {
                32u8
            },
    )
}

/// One ingested byte. A line feed (10), or a write position already at
/// column 79, terminates the current row (storing 0 at the write position,
/// so a wrapping byte is discarded) and moves to the start of the next row,
/// scrolling when that would be row 24. Any other byte is stored at the
/// write position, which advances one column.
pub open spec fn step(v: ScreenView, b: u8) -> ScreenView {
    if v.col == 79 || b == 10 {
        let terminated = v.grid.update(80 * v.row + v.col, 0u8);
        if v.row + 1 == 24 {
            ScreenView { grid: scrolled(terminated), row: 23, col: 0, ..v }
        } else {
            ScreenView { grid: terminated, row: v.row + 1, col: 0, ..v }
        }
    } else {
        ScreenView { grid: v.grid.update(80 * v.row + v.col, b), col: v.col + 1, ..v }
    }
}

/// The screen state after ingesting `bytes` in order.
pub open spec fn ingest(v: ScreenView, bytes: Seq<u8>) -> ScreenView
    decreases bytes.len(),
{
    if bytes.len() == 0 {
        v
    } else {
        step(ingest(v, bytes.drop_last()), bytes.last())
    }
}

/// `cells` with cell `i` set to `(glyph, attr)` — when `i` lies inside the
/// region; a write aimed past the region's end is dropped.
pub open spec fn put_cell(cells: Seq<u8>, i: int, glyph: u8, attr: u8) -> Seq<u8> {
    if 0 <= i < 2000 {
        cells.update(2 * i, glyph).update(2 * i + 1, attr)
    } else {
        cells
    }
}

/// `cells` after writing `glyphs[j]` with attribute `attr` to cell `w + j`
/// for each `j`, in order.
pub open spec fn put_run(cells: Seq<u8>, w: int, glyphs: Seq<u8>, attr: u8) -> Seq<u8>
    decreases glyphs.len(),
{
    if glyphs.len() == 0 {
        cells
    } else {
        put_cell(
            put_run(cells, w, glyphs.drop_last(), attr),
            w + glyphs.len() - 1,
            glyphs.last(),
            attr,
        )
    }
}

/// A run of `n` space glyphs.
pub open spec fn space_run(n: int) -> Seq<u8> {
    Seq::new(n as nat, |i: int| 32u8)
}

/// The flush cursor advanced to the start of the next hardware row: the next
/// multiple of 80 strictly above `w`.
pub open spec fn next_bound(w: int) -> int {
    w + 80 - w % 80
}

/// The cell region and flush cursor after the flusher has emitted shadow
/// rows `[0, r)` over a region that held `cells0`: for each row, its pad
/// spaces, then its visible glyphs, then the cursor jump to the next row
/// boundary.
pub open spec fn flush_upto(
    cells0: Seq<u8>,
    grid: Seq<u8>,
    align: Alignment,
    attr: u8,
    r: int,
) -> (Seq<u8>, int)
    decreases r,
{
    if r <= 0 {
        (cells0, 0)
    } else {
        let prev = flush_upto(cells0, grid, align, attr, r - 1);
        let vis = visible(grid, r - 1);
        let p = pad_for(align, vis.len() as int);
        let padded = put_run(prev.0, prev.1, space_run(p), attr);
        let written = put_run(padded, prev.1 + p, vis, attr);
        (written, next_bound(prev.1 + p + vis.len()))
    }
}

/// The screen state after a full flush of all 25 shadow rows.
pub open spec fn flushed(v: ScreenView) -> ScreenView {
    ScreenView {
        cells: flush_upto(v.cells, v.grid, v.align, v.color, 25).0,
        cursor_write: flush_upto(v.cells, v.grid, v.align, v.color, 25).1,
        ..v
    }
}

/// Ingestion touches only the shadow grid and the write position: the cell
/// region, color, alignment and flush cursor come through unchanged.
pub proof fn lemma_ingest_const(v: ScreenView, bytes: Seq<u8>)
    ensures
        ingest(v, bytes).cells == v.cells,
        ingest(v, bytes).color == v.color,
        ingest(v, bytes).align == v.align,
        ingest(v, bytes).cursor_write == v.cursor_write,
    decreases bytes.len(),
{
    if bytes.len() > 0 {
        lemma_ingest_const(v, bytes.drop_last());
    }
}

/// Ingestion preserves well-formedness: the grid keeps its 2000 bytes and
/// the write position stays in range, whatever bytes arrive.
pub proof fn lemma_ingest_wf(v: ScreenView, bytes: Seq<u8>)
    requires
        v.wf(),
    ensures
        ingest(v, bytes).wf(),
    decreases bytes.len(),
{
    if bytes.len() > 0 {
        lemma_ingest_wf(v, bytes.drop_last());
    }
}

/// The first 0 byte at or after `i` lies between `i` and 80.
pub proof fn lemma_first_zero_bounds(row: Seq<u8>, i: int)
    requires
        0 <= i <= 80,
    ensures
        i <= first_zero_from(row, i) <= 80,
    decreases 80 - i,
{
    if i < 80 && row[i] != 0 {
        lemma_first_zero_bounds(row, i + 1);
    }
}

/// When every byte in `[i, l)` is non-zero and `l` is 80 or holds a 0 byte,
/// the first 0 at or after `i` is exactly `l`.
pub proof fn lemma_first_zero_at(row: Seq<u8>, i: int, l: int)
    requires
        0 <= i <= l <= 80,
        forall|j: int| i <= j < l ==> row[j] != 0,
        l == 80 || row[l] == 0,
    ensures
        first_zero_from(row, i) == l,
    decreases l - i,
{
    if i < l {
        lemma_first_zero_at(row, i + 1, l);
    }
}

/// The visible length of any 80-byte row lies in `[0, 80]`, so its pad and
/// the pad plus the length both fit in a single 80-cell hardware row.
pub proof fn lemma_pad_bounds(align: Alignment, row: Seq<u8>)
    ensures
        0 <= vis_len(row) <= 80,
        0 <= pad_for(align, vis_len(row)),
        pad_for(align, vis_len(row)) + vis_len(row) <= 80,
{
    lemma_first_zero_bounds(row, 0);
}

} // verus!
