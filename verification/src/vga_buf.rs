//! The renderer: the screen types and the verified operations on them.

use vstd::prelude::*;

use crate::model::{
    flush_upto, flushed, ingest, lemma_first_zero_at, lemma_ingest_const, lemma_pad_bounds,
    pad_for, put_cell, put_run, row_at, scrolled, space_run, step, vis_len, visible, ScreenView,
};
use vstd::string::StringSliceAdditionalSpecFns;

verus! {

/// One screen cell as a glyph byte and an attribute byte.
pub struct AsciiChar {
    pub char_byte: u8,
    pub color_byte: u8,
}

/// Horizontal alignment policy applied to every row at flush time.
#[derive(Clone, Copy)]
pub enum Alignment {
    Left,
    Right,
    Center,
}

/// The CGA palette colors usable as a foreground, by their 4-bit codes.
#[allow(non_camel_case_types)]
#[derive(Clone, Copy)]
pub enum Color {
    BLUE,
    GREEN,
    AZURE,
    RED,
    PURPLE,
    BROWN,
    LIGHT_GREY,
    DARK_GREY,
    LIGHT_BLUE,
    LIGHT_GREEN,
    LIGHT_AZURE,
    LIGHT_RED,
    PINK,
    YELLOW,
    WHITE,
}

/// The 4-bit code of a palette color.
pub open spec fn color_code(c: Color) -> u8 {
    match c {
        Color::BLUE => 0x1,
        Color::GREEN => 0x2,
        Color::AZURE => 0x3,
        Color::RED => 0x4,
        Color::PURPLE => 0x5,
        Color::BROWN => 0x6,
        Color::LIGHT_GREY => 0x7,
        Color::DARK_GREY => 0x8,
        Color::LIGHT_BLUE => 0x9,
        Color::LIGHT_GREEN => 0xa,
        Color::LIGHT_AZURE => 0xb,
        Color::LIGHT_RED => 0xc,
        Color::PINK => 0xd,
        Color::YELLOW => 0xe,
        Color::WHITE => 0xf,
    }
}

impl Color {
    /// The 4-bit code of this color.
    pub fn code(self) -> (b: u8)
        ensures
            b == color_code(self),
    {
        match self {
            Color::BLUE => 0x1,
            Color::GREEN => 0x2,
            Color::AZURE => 0x3,
            Color::RED => 0x4,
            Color::PURPLE => 0x5,
            Color::BROWN => 0x6,
            Color::LIGHT_GREY => 0x7,
            Color::DARK_GREY => 0x8,
            Color::LIGHT_BLUE => 0x9,
            Color::LIGHT_GREEN => 0xa,
            Color::LIGHT_AZURE => 0xb,
            Color::LIGHT_RED => 0xc,
            Color::PINK => 0xd,
            Color::YELLOW => 0xe,
            Color::WHITE => 0xf,
        }
    }
}

/// The renderer: the cell region it owns, the fixed attribute byte and
/// alignment policy, the write position, and the shadow grid.
///
/// The cell region lives here as a plain byte buffer so that every write to
/// it is ordinary, verified code. A host that drives real text-mode
/// hardware copies this buffer to the memory-mapped region after a call.
pub struct Screen {
    /// The 4000-byte cell region: glyph at `2*i`, attribute at `2*i + 1`.
    cells: Vec<u8>,
    /// Attribute byte stored with every cell: black background, fixed
    /// foreground.
    color: u8,
    /// Horizontal alignment applied to every row at flush time.
    align: Alignment,
    /// Write position: row index in `[0, 24)`.
    row: u32,
    /// Write position: column index in `[0, 80)`.
    col: u32,
    /// The shadow grid: 25 rows of 80 glyph bytes, row-major.
    state: Vec<u8>,
    /// Flat flush cursor, rebuilt from zero on every flush.
    cursor_write: u32,
}

impl View for Screen {
    type V = ScreenView;

    closed spec fn view(&self) -> ScreenView {
        ScreenView {
            cells: self.cells@,
            grid: self.state@,
            color: self.color,
            align: self.align,
            row: self.row as int,
            col: self.col as int,
            cursor_write: self.cursor_write as int,
        }
    }
}

impl Screen {
    /// A fresh screen: zeroed shadow grid (every row is empty), write
    /// position at the top left, attribute byte `(black << 4) | color`, and
    /// a cell region of 2000 cells holding a space glyph with that
    /// attribute.
    pub fn new(color: u8, align: Alignment) -> (s: Screen)
        ensures
            s@.wf(),
            s@.color == color,
            s@.align == align,
            s@.row == 0,
            s@.col == 0,
            s@.cursor_write == 0,
            s@.grid == Seq::new(2000, |i: int| 0u8),
            s@.cells == Seq::new(4000, |i: int| if i % 2 == 0 { 32u8 } else { color }),
    {
        let attr: u8 = (0u8 << 4) | color;
        proof {
            assert((0u8 << 4) | color == color) by (bit_vector);
        }
        let mut cells: Vec<u8> = Vec::new();
        let mut i: usize = 0;
        while i < 2000
            invariant
                i <= 2000,
                cells@.len() == 2 * i,
                forall|j: int|
                    0 <= j < 2 * i ==> cells@[j] == (if j % 2 == 0 { 32u8 } else { attr }),
            decreases 2000 - i,
        {
            cells.push(32u8);
            cells.push(attr);
            i += 1;
        }
        let mut state: Vec<u8> = Vec::new();
        let mut k: usize = 0;
        while k < 2000
            invariant
                k <= 2000,
                state@.len() == k,
                forall|j: int| 0 <= j < k ==> state@[j] == 0u8,
            decreases 2000 - k,
        {
            state.push(0u8);
            k += 1;
        }
        let s = Screen { cells, color: attr, align, row: 0, col: 0, state, cursor_write: 0 };
        proof {
            assert(s@.grid =~= Seq::new(2000, |i: int| 0u8));
            assert(s@.cells =~= Seq::new(4000, |i: int| if i % 2 == 0 { 32u8 } else { color }));
        }
        s
    }

    /// The current write position as `(row, col)`.
    pub fn cursor(&self) -> (rc: (u32, u32))
        ensures
            rc.0 as int == self@.row,
            rc.1 as int == self@.col,
    {
        (self.row, self.col)
    }

    /// Write one cell at `offset` with the glyph and attribute of `ch`, and
    /// advance the flush cursor by one. A write aimed at or past cell 2000
    /// is dropped: the cell region never grows, and the cursor still moves.
    pub fn write_char(&mut self, offset: u32, ch: AsciiChar)
        requires
            old(self)@.cells.len() == 4000,
            old(self)@.cursor_write < u32::MAX,
        ensures
            final(self)@ == (ScreenView {
                cells: put_cell(old(self)@.cells, offset as int, ch.char_byte, ch.color_byte),
                cursor_write: old(self)@.cursor_write + 1,
                ..old(self)@
            }),
    {
        if offset < 2000 {
            let i: usize = (offset as usize) * 2;
            self.cells.set(i, ch.char_byte);
            self.cells.set(i + 1, ch.color_byte);
        }
        self.cursor_write = self.cursor_write + 1;
        proof {
            assert(self@ =~= ScreenView {
                cells: put_cell(old(self)@.cells, offset as int, ch.char_byte, ch.color_byte),
                cursor_write: old(self)@.cursor_write + 1,
                ..old(self)@
            });
        }
    }

    /// Read back the cell at `offset` as a glyph byte and an attribute byte.
    pub fn read_char(&self, offset: u32) -> (ch: AsciiChar)
        requires
            self@.cells.len() == 4000,
            offset < 2000,
        ensures
            ch.char_byte == self@.cells[2 * offset as int],
            ch.color_byte == self@.cells[2 * offset as int + 1],
    {
        let i: usize = (offset as usize) * 2;
        AsciiChar { char_byte: self.cells[i], color_byte: self.cells[i + 1] }
    }

    /// Scroll the shadow grid one row up. Meant to run just after ingestion
    /// stepped the write row to 24; leaves it at 23. Rows 0..=22 take the
    /// contents of rows 1..=23, row 23 keeps its previous contents, and row
    /// 24 becomes 80 unterminated space bytes, so it flushes as a blank
    /// row.
    pub fn scroll(&mut self)
        requires
            old(self)@.grid.len() == 2000,
            old(self)@.row == 24,
        ensures
            final(self)@ == (ScreenView {
                grid: scrolled(old(self)@.grid),
                row: 23,
                ..old(self)@
            }),
    {
        let ghost g0 = self@.grid;
        let mut i: usize = 0;
        while i < 1840
            invariant
                i <= 1840,
                self@.grid.len() == 2000,
                forall|j: int| 0 <= j < i ==> self@.grid[j] == g0[j + 80],
                forall|j: int| i <= j < 2000 ==> self@.grid[j] == g0[j],
                self@ == (ScreenView { grid: self@.grid, ..old(self)@ }),
            decreases 1840 - i,
        {
            let b = self.state[i + 80];
            self.state.set(i, b);
            i += 1;
        }
        let mut k: usize = 1920;
        while k < 2000
            invariant
                1920 <= k <= 2000,
                self@.grid.len() == 2000,
                forall|j: int| 0 <= j < 1840 ==> self@.grid[j] == g0[j + 80],
                forall|j: int| 1840 <= j < 1920 ==> self@.grid[j] == g0[j],
                forall|j: int| 1920 <= j < k ==> self@.grid[j] == 32u8,
                self@ == (ScreenView { grid: self@.grid, ..old(self)@ }),
            decreases 2000 - k,
        {
            self.state.set(k, 32u8);
            k += 1;
        }
        self.row = self.row - 1;
        proof {
            assert(self@.grid =~= scrolled(g0));
            assert(self@ =~= ScreenView { grid: scrolled(old(self)@.grid), row: 23, ..old(self)@ });
        }
    }

    /// Leading pad for an 80-byte row under this screen's alignment: 0 for
    /// left, the free space for right, half the free space (rounded down)
    /// for center.
    pub fn calc_align(&self, row: &[u8]) -> (pad: u32)
        requires
            row@.len() == 80,
        ensures
            pad == pad_for(self@.align, vis_len(row@)),
    {
        let len = row_len(row);
        match self.align {
            Alignment::Left => 0,
            Alignment::Right => 80 - len,
            Alignment::Center => (80 - len) / 2,
        }
    }

    /// Ingest the bytes of `s` into the shadow grid, then flush: rewrite the
    /// cell region from the whole grid, row by row, emitting each row's pad
    /// spaces and then its visible glyphs with the configured attribute,
    /// and jumping to the next 80-cell row boundary in between.
    pub fn print(&mut self, s: &str)
        requires
            old(self)@.wf(),
        ensures
            final(self)@.wf(),
            final(self)@ == flushed(ingest(old(self)@, s.spec_bytes())),
            final(self)@.cursor_write <= 4000,
    {
        let ghost v0 = self@;
        self.add_text(s.as_bytes());
        proof {
            lemma_ingest_const(v0, s.spec_bytes());
        }
        let ghost iv = ingest(v0, s.spec_bytes());
        self.cursor_write = 0;
        let mut r: usize = 0;
        while r < 25
            invariant
                r <= 25,
                self@.wf(),
                self@.grid == iv.grid,
                self@.row == iv.row,
                self@.col == iv.col,
                self@.color == iv.color,
                self@.align == iv.align,
                self@.cells == flush_upto(iv.cells, iv.grid, iv.align, iv.color, r as int).0,
                self@.cursor_write == flush_upto(iv.cells, iv.grid, iv.align, iv.color, r as int).1,
                self@.cursor_write <= 160 * r,
            decreases 25 - r,
        {
            let ghost w0 = self@.cursor_write;
            let ghost cellsr = self@.cells;
            let base: usize = r * 80;
            let mut rowbuf: Vec<u8> = Vec::new();
            let mut c: usize = 0;
            while c < 80
                invariant
                    c <= 80,
                    base == r * 80,
                    r < 25,
                    self@.grid.len() == 2000,
                    rowbuf@.len() == c,
                    forall|j: int| 0 <= j < c ==> rowbuf@[j] == self@.grid[base + j],
                decreases 80 - c,
            {
                let b = self.state[base + c];
                rowbuf.push(b);
                c += 1;
            }
            proof {
                assert(rowbuf@ =~= row_at(iv.grid, r as int));
            }
            let p: u32 = self.calc_align(rowbuf.as_slice());
            let len: u32 = row_len(rowbuf.as_slice());
            let ghost vis = visible(iv.grid, r as int);
            proof {
                lemma_pad_bounds(iv.align, row_at(iv.grid, r as int));
                assert(vis.len() == len);
                assert(p == pad_for(iv.align, vis.len() as int));
            }
            let mut k: u32 = 0;
            while k < p
                invariant
                    k <= p,
                    p == pad_for(iv.align, vis.len() as int),
                    p <= 80,
                    0 <= w0 <= 3840,
                    self@.wf(),
                    self@.grid == iv.grid,
                    self@.row == iv.row,
                    self@.col == iv.col,
                    self@.align == iv.align,
                    self@.color == iv.color,
                    self@.cells == put_run(cellsr, w0, space_run(k as int), iv.color),
                    self@.cursor_write == w0 + k,
                decreases p - k,
            {
                proof {
                    assert(space_run(k + 1).drop_last() =~= space_run(k as int));
                }
                self.write_char(self.cursor_write, AsciiChar { char_byte: 32u8, color_byte: self.color });
                k += 1;
            }
            let ghost w1 = w0 + p;
            let ghost cellsp = self@.cells;
            proof {
                assert(vis.take(0) =~= Seq::<u8>::empty());
            }
            let mut g: u32 = 0;
            while g < len
                invariant
                    g <= len,
                    len == vis.len(),
                    len == vis_len(row_at(iv.grid, r as int)),
                    len <= 80,
                    0 <= w1 <= 3920,
                    rowbuf@ == row_at(iv.grid, r as int),
                    rowbuf@.len() == 80,
                    vis == visible(iv.grid, r as int),
                    self@.wf(),
                    self@.grid == iv.grid,
                    self@.row == iv.row,
                    self@.col == iv.col,
                    self@.align == iv.align,
                    self@.color == iv.color,
                    self@.cells == put_run(cellsp, w1, vis.take(g as int), iv.color),
                    self@.cursor_write == w1 + g,
                decreases len - g,
            {
                let glyph = rowbuf[g as usize];
                proof {
                    assert(vis.take(g + 1).drop_last() =~= vis.take(g as int));
                    assert(vis[g as int] == rowbuf@[g as int]);
                }
                self.write_char(self.cursor_write, AsciiChar { char_byte: glyph, color_byte: self.color });
                g += 1;
            }
            proof {
                assert(vis.take(len as int) =~= vis);
            }
            self.cursor_write = self.cursor_write + (80 - self.cursor_write % 80);
            proof {
                assert(self@.cells == flush_upto(iv.cells, iv.grid, iv.align, iv.color, r + 1).0);
                assert(self@.cursor_write == flush_upto(iv.cells, iv.grid, iv.align, iv.color, r + 1).1);
            }
            r += 1;
        }
        proof {
            assert(self@ =~= flushed(iv));
        }
    }

    /// Ingest `row` byte by byte into the shadow grid, advancing the write
    /// position, wrapping at column 79, and scrolling whenever the write
    /// row would reach 24. The cell region is untouched: only a flush
    /// shows the new text.
    pub fn add_text(&mut self, row: &[u8])
        requires
            old(self)@.wf(),
        ensures
            final(self)@.wf(),
            final(self)@ == ingest(old(self)@, row@),
    {
        let ghost v0 = self@;
        let n = row.len();
        let mut i: usize = 0;
        proof {
            assert(row@.take(0) =~= Seq::<u8>::empty());
        }
        while i < n
            invariant
                i <= n,
                n == row@.len(),
                self@.wf(),
                self@ == ingest(v0, row@.take(i as int)),
            decreases n - i,
        {
            let b = row[i];
            let ghost before = self@;
            if self.col == 79 || b == 10 {
                let idx: usize = (self.row as usize) * 80 + (self.col as usize);
                self.state.set(idx, 0u8);
                self.col = 0;
                self.row = self.row + 1;
                if self.row == 24 {
                    self.scroll();
                }
            } else {
                let idx: usize = (self.row as usize) * 80 + (self.col as usize);
                self.state.set(idx, b);
                self.col = self.col + 1;
            }
            proof {
                assert(self@ =~= step(before, row@[i as int]));
                assert(row@.take(i + 1).drop_last() =~= row@.take(i as int));
                assert(row@.take(i + 1).last() == row@[i as int]);
            }
            i += 1;
        }
        proof {
            assert(row@.take(n as int) =~= row@);
        }
    }
}

/// Visible length of an 80-byte row slice: the count of bytes before its
/// first 0 byte, or 80 when none is 0.
fn row_len(row: &[u8]) -> (len: u32)
    requires
        row@.len() == 80,
    ensures
        len == vis_len(row@),
        len <= 80,
{
    let mut len: usize = 0;
    while len < 80 && row[len] != 0
        invariant
            row@.len() == 80,
            len <= 80,
            forall|j: int| 0 <= j < len ==> row@[j] != 0,
        decreases 80 - len,
    {
        len += 1;
    }
    proof {
        lemma_first_zero_at(row@, 0, len as int);
    }
    len as u32
}

} // verus!
