//! The renderer's laws: what scrolling does to the visible rows, and what
//! the flusher leaves in the cell region — every attribute byte uniform,
//! and each shadow row laid out as pad spaces followed by its glyphs.

use vstd::prelude::*;

use crate::model::{
    flush_upto, flushed, ingest, lemma_ingest_const, lemma_ingest_wf, lemma_pad_bounds, pad_for,
    put_run, row_at, scrolled, space_run, vis_len, visible, ScreenView,
};
use crate::vga_buf::Alignment;

verus! {

/// A run of writes keeps the region's length, leaves every byte outside
/// `[2*w, 2*(w + glyphs.len()))` alone, and stores each in-region glyph at
/// its cell's glyph byte with `attr` at its attribute byte.
proof fn lemma_put_run_props(cells: Seq<u8>, w: int, glyphs: Seq<u8>, attr: u8)
    requires
        cells.len() == 4000,
        0 <= w,
    ensures
        put_run(cells, w, glyphs, attr).len() == 4000,
        forall|b: int|
            0 <= b < 4000 && !(2 * w <= b < 2 * (w + glyphs.len())) ==> put_run(
                cells,
                w,
                glyphs,
                attr,
            )[b] == cells[b],
        forall|j: int|
            0 <= j < glyphs.len() && w + j < 2000 ==> #[trigger] put_run(
                cells,
                w,
                glyphs,
                attr,
            )[2 * (w + j)] == glyphs[j],
        forall|j: int|
            0 <= j < glyphs.len() && w + j < 2000 ==> #[trigger] put_run(
                cells,
                w,
                glyphs,
                attr,
            )[2 * (w + j) + 1] == attr,
    decreases glyphs.len(),
{
    if glyphs.len() > 0 {
        lemma_put_run_props(cells, w, glyphs.drop_last(), attr);
    }
}

/// A run of writes keeps a uniform attribute region uniform.
proof fn lemma_put_run_attrs(cells: Seq<u8>, w: int, glyphs: Seq<u8>, attr: u8)
    requires
        cells.len() == 4000,
        0 <= w,
        forall|i: int| 0 <= i < 2000 ==> #[trigger] cells[2 * i + 1] == attr,
    ensures
        forall|i: int| 0 <= i < 2000 ==> #[trigger] put_run(cells, w, glyphs, attr)[2 * i + 1]
            == attr,
{
    lemma_put_run_props(cells, w, glyphs, attr);
    assert forall|i: int| 0 <= i < 2000 implies #[trigger] put_run(cells, w, glyphs, attr)[2 * i
        + 1] == attr by {
        if 2 * w <= 2 * i + 1 < 2 * (w + glyphs.len()) {
            let j = i - w;
            assert(0 <= j < glyphs.len());
            assert(put_run(cells, w, glyphs, attr)[2 * (w + j) + 1] == attr);
            assert(2 * (w + j) + 1 == 2 * i + 1);
        } else {
            assert(put_run(cells, w, glyphs, attr)[2 * i + 1] == cells[2 * i + 1]);
            assert(cells[2 * i + 1] == attr);
        }
    }
}

/// The flush cursor at the start of each row is a non-negative multiple of
/// 80, no larger than 160 per row already emitted, and never moves
/// backwards.
proof fn lemma_flush_cursor(cells0: Seq<u8>, grid: Seq<u8>, align: Alignment, attr: u8, r: int)
    requires
        grid.len() == 2000,
        0 <= r <= 25,
    ensures
        0 <= flush_upto(cells0, grid, align, attr, r).1,
        flush_upto(cells0, grid, align, attr, r).1 % 80 == 0,
        flush_upto(cells0, grid, align, attr, r).1 <= 160 * r,
        r > 0 ==> flush_upto(cells0, grid, align, attr, r - 1).1 <= flush_upto(
            cells0,
            grid,
            align,
            attr,
            r,
        ).1,
    decreases r,
{
    if r > 0 {
        lemma_flush_cursor(cells0, grid, align, attr, r - 1);
        lemma_pad_bounds(align, row_at(grid, r - 1));
        assert(visible(grid, r - 1).len() == vis_len(row_at(grid, r - 1)));
    }
}

/// The flushed region keeps its 4000-byte length.
proof fn lemma_flush_len(cells0: Seq<u8>, grid: Seq<u8>, align: Alignment, attr: u8, r: int)
    requires
        cells0.len() == 4000,
        grid.len() == 2000,
        0 <= r <= 25,
    ensures
        flush_upto(cells0, grid, align, attr, r).0.len() == 4000,
    decreases r,
{
    if r > 0 {
        lemma_flush_len(cells0, grid, align, attr, r - 1);
        lemma_flush_cursor(cells0, grid, align, attr, r - 1);
        let prev = flush_upto(cells0, grid, align, attr, r - 1);
        let vis = visible(grid, r - 1);
        let p = pad_for(align, vis.len() as int);
        lemma_pad_bounds(align, row_at(grid, r - 1));
        assert(vis.len() == vis_len(row_at(grid, r - 1)));
        lemma_put_run_props(prev.0, prev.1, space_run(p), attr);
        lemma_put_run_props(put_run(prev.0, prev.1, space_run(p), attr), prev.1 + p, vis, attr);
    }
}

/// Rows emitted after row `r` write only at or beyond row `r`'s final
/// cursor: every byte below it keeps, in the finished flush, the value it
/// had when row `r` was done.
proof fn lemma_flush_stable(cells0: Seq<u8>, grid: Seq<u8>, align: Alignment, attr: u8, r: int)
    requires
        cells0.len() == 4000,
        grid.len() == 2000,
        0 <= r <= 25,
    ensures
        forall|b: int|
            0 <= b < 4000 && b < 2 * flush_upto(cells0, grid, align, attr, r).1 ==> flush_upto(
                cells0,
                grid,
                align,
                attr,
                25,
            ).0[b] == flush_upto(cells0, grid, align, attr, r).0[b],
    decreases 25 - r,
{
    if r < 25 {
        let prev = flush_upto(cells0, grid, align, attr, r);
        let vis = visible(grid, r);
        let p = pad_for(align, vis.len() as int);
        lemma_flush_cursor(cells0, grid, align, attr, r);
        lemma_flush_cursor(cells0, grid, align, attr, r + 1);
        lemma_flush_len(cells0, grid, align, attr, r);
        lemma_pad_bounds(align, row_at(grid, r));
        assert(vis.len() == vis_len(row_at(grid, r)));
        lemma_put_run_props(prev.0, prev.1, space_run(p), attr);
        lemma_put_run_props(put_run(prev.0, prev.1, space_run(p), attr), prev.1 + p, vis, attr);
        lemma_flush_stable(cells0, grid, align, attr, r + 1);
    }
}

/// The flusher writes the configured attribute into every cell it touches,
/// so a region whose attribute bytes all equal `attr` still has them all
/// equal to `attr` after a full flush.
proof fn lemma_flush_attrs(cells0: Seq<u8>, grid: Seq<u8>, align: Alignment, attr: u8, r: int)
    requires
        cells0.len() == 4000,
        grid.len() == 2000,
        0 <= r <= 25,
        forall|i: int| 0 <= i < 2000 ==> #[trigger] cells0[2 * i + 1] == attr,
    ensures
        forall|i: int| 0 <= i < 2000 ==> #[trigger] flush_upto(cells0, grid, align, attr, r).0[2
            * i + 1] == attr,
    decreases r,
{
    if r > 0 {
        lemma_flush_attrs(cells0, grid, align, attr, r - 1);
        lemma_flush_cursor(cells0, grid, align, attr, r - 1);
        lemma_flush_len(cells0, grid, align, attr, r - 1);
        let prev = flush_upto(cells0, grid, align, attr, r - 1);
        let vis = visible(grid, r - 1);
        let p = pad_for(align, vis.len() as int);
        lemma_pad_bounds(align, row_at(grid, r - 1));
        assert(vis.len() == vis_len(row_at(grid, r - 1)));
        lemma_put_run_attrs(prev.0, prev.1, space_run(p), attr);
        lemma_put_run_props(prev.0, prev.1, space_run(p), attr);
        lemma_put_run_attrs(put_run(prev.0, prev.1, space_run(p), attr), prev.1 + p, vis, attr);
    }
}

/// After a print from a screen whose attribute bytes are uniform, every
/// attribute byte of the cell region still equals the configured color:
/// ingestion leaves the region alone, and the flusher writes only that
/// color.
pub proof fn lemma_print_keeps_attrs(v: ScreenView, bytes: Seq<u8>)
    requires
        v.wf(),
        v.attrs_uniform(),
    ensures
        flushed(ingest(v, bytes)).attrs_uniform(),
{
    lemma_ingest_const(v, bytes);
    lemma_ingest_wf(v, bytes);
    let iv = ingest(v, bytes);
    lemma_flush_attrs(iv.cells, iv.grid, iv.align, iv.color, 25);
}

/// A scroll moves every visible row up by one: rows 0..=22 of the scrolled
/// grid equal rows 1..=23 of the grid before, and row 24 is all spaces.
pub proof fn lemma_scroll_preserves_rows(grid: Seq<u8>)
    requires
        grid.len() == 2000,
    ensures
        forall|r: int| 0 <= r < 23 ==> row_at(scrolled(grid), r) == row_at(grid, r + 1),
        forall|c: int| 0 <= c < 80 ==> row_at(scrolled(grid), 24)[c] == 32u8,
{
    assert forall|r: int| 0 <= r < 23 implies row_at(scrolled(grid), r) == row_at(
        grid,
        r + 1,
    ) by {
        assert(row_at(scrolled(grid), r) =~= row_at(grid, r + 1));
    }
}

/// What one flushed row looks like: if `w` is the flush cursor at the start
/// of shadow row `r` — a multiple of 80 — then the finished flush holds,
/// from cell `w` on, the row's pad as space glyphs and then its visible
/// glyphs, for every cell of that stretch that lies inside the region.
pub proof fn lemma_flush_row_layout(
    cells0: Seq<u8>,
    grid: Seq<u8>,
    align: Alignment,
    attr: u8,
    r: int,
)
    requires
        cells0.len() == 4000,
        grid.len() == 2000,
        0 <= r < 25,
    ensures
        ({
            let w = flush_upto(cells0, grid, align, attr, r).1;
            let row = row_at(grid, r);
            let l = vis_len(row);
            let p = pad_for(align, l);
            let out = flush_upto(cells0, grid, align, attr, 25).0;
            &&& w % 80 == 0
            &&& 0 <= w <= 160 * r
            &&& forall|j: int| 0 <= j < p && w + j < 2000 ==> #[trigger] out[2 * (w + j)] == 32u8
            &&& forall|j: int|
                0 <= j < l && w + p + j < 2000 ==> #[trigger] out[2 * (w + p + j)] == row[j]
        }),
{
    let prev = flush_upto(cells0, grid, align, attr, r);
    let w = prev.1;
    let row = row_at(grid, r);
    let l = vis_len(row);
    let p = pad_for(align, l);
    let vis = visible(grid, r);
    lemma_flush_cursor(cells0, grid, align, attr, r);
    lemma_flush_cursor(cells0, grid, align, attr, r + 1);
    lemma_flush_len(cells0, grid, align, attr, r);
    lemma_pad_bounds(align, row);
    assert(vis.len() == vis_len(row));
    let padded = put_run(prev.0, w, space_run(p), attr);
    let written = put_run(padded, w + p, vis, attr);
    lemma_put_run_props(prev.0, w, space_run(p), attr);
    lemma_put_run_props(padded, w + p, vis, attr);
    lemma_flush_stable(cells0, grid, align, attr, r + 1);
    let out = flush_upto(cells0, grid, align, attr, 25).0;
    assert forall|j: int| 0 <= j < p && w + j < 2000 implies #[trigger] out[2 * (w + j)] == 32u8 by {
        assert(padded[2 * (w + j)] == space_run(p)[j]);
        assert(written[2 * (w + j)] == padded[2 * (w + j)]);
    }
    assert forall|j: int| 0 <= j < l && w + p + j < 2000 implies #[trigger] out[2 * (w + p + j)]
        == row[j] by {
        assert(written[2 * (w + p + j)] == vis[j]);
    }
}

} // verus!
