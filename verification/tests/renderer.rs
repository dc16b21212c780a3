use vga_text::vga_buf::{Alignment, AsciiChar, Color, Screen};

/// The 80 glyph bytes of hardware row `r`, as a string.
fn row_text(s: &Screen, r: u32) -> String {
    let mut out = String::new();
    let mut c = 0u32;
    while c < 80 {
        out.push(s.read_char(r * 80 + c).char_byte as char);
        c += 1;
    }
    out
}

/// A full 80-column line: `text` padded with spaces on each side.
fn padded(text: &str, left: usize) -> String {
    let mut out = String::new();
    for _ in 0..left {
        out.push(' ');
    }
    out.push_str(text);
    while out.len() < 80 {
        out.push(' ');
    }
    out
}

fn blank() -> String {
    padded("", 0)
}

#[test]
fn color_codes() {
    assert_eq!(Color::BLUE.code(), 0x1);
    assert_eq!(Color::RED.code(), 0x4);
    assert_eq!(Color::LIGHT_GREEN.code(), 0xa);
    assert_eq!(Color::WHITE.code(), 0xf);
}

#[test]
fn new_screen_is_blank_spaces() {
    let s = Screen::new(Color::LIGHT_GREEN.code(), Alignment::Center);
    for i in [0u32, 1, 79, 80, 1000, 1999] {
        let ch = s.read_char(i);
        assert_eq!(ch.char_byte, b' ');
        assert_eq!(ch.color_byte, 0x0a);
    }
    assert_eq!(s.cursor(), (0, 0));
}

#[test]
fn centered_two_chars() {
    // "hi" centered: pad (80 - 2) / 2 = 39, glyphs in cells 39 and 40.
    let mut s = Screen::new(Color::LIGHT_GREEN.code(), Alignment::Center);
    s.print("hi\n");
    assert_eq!(row_text(&s, 0), padded("hi", 39));
    assert_eq!(s.cursor(), (1, 0));
}

#[test]
fn wrap_at_column_79_discards_the_wrapping_byte() {
    // 80 bytes with no newline: the 80th byte lands on column 79, which
    // forces a wrap that terminates the row and drops that byte.
    let mut input = String::new();
    for _ in 0..8 {
        input.push_str("0123456789");
    }
    let mut s = Screen::new(Color::LIGHT_GREEN.code(), Alignment::Center);
    s.print(&input);
    // Visible length 79, center pad (80 - 79) / 2 = 0.
    let mut expect = String::new();
    expect.push_str(&input[..79]);
    expect.push(' ');
    assert_eq!(row_text(&s, 0), expect);
    assert_eq!(s.cursor(), (1, 0));
}

#[test]
fn right_aligned_line() {
    let mut s = Screen::new(Color::LIGHT_GREEN.code(), Alignment::Right);
    s.print("abc\n");
    assert_eq!(row_text(&s, 0), padded("abc", 77));
}

#[test]
fn left_aligned_line() {
    let mut s = Screen::new(Color::LIGHT_GREEN.code(), Alignment::Left);
    s.print("abc\n");
    assert_eq!(row_text(&s, 0), padded("abc", 0));
}

#[test]
fn twenty_five_left_lines_scroll_once_each() {
    // 25 lines of "x": the 24th line feed steps the write row to 24 and
    // scrolls; so does the 25th. Rows 0..=23 show "x", row 24 is blank.
    let mut input = String::new();
    for _ in 0..25 {
        input.push_str("x\n");
    }
    let mut s = Screen::new(Color::LIGHT_GREEN.code(), Alignment::Left);
    s.print(&input);
    for r in 0..24 {
        assert_eq!(row_text(&s, r), padded("x", 0));
    }
    assert_eq!(row_text(&s, 24), blank());
    assert_eq!(s.cursor(), (23, 0));
}

#[test]
fn scroll_moves_rows_up_and_keeps_row_23() {
    // 24 distinct lines: the final line feed scrolls, so rows 0..=22 hold
    // lines 1..=23, row 23 keeps its pre-scroll content (line 23), and row
    // 24 is blank.
    let mut input = String::new();
    for i in 0..24 {
        input.push_str(&format!("line {}\n", i));
    }
    let mut s = Screen::new(Color::LIGHT_GREEN.code(), Alignment::Left);
    s.print(&input);
    for r in 0..23u32 {
        assert_eq!(row_text(&s, r), padded(&format!("line {}", r + 1), 0));
    }
    assert_eq!(row_text(&s, 23), padded("line 23", 0));
    assert_eq!(row_text(&s, 24), blank());
}

#[test]
fn hundred_numbered_lines() {
    // The driver scenario: 100 centered lines. Each scroll keeps row 23 as
    // it was, so rows 0..=22 hold lines 77..=99 and row 23 repeats line 99.
    let mut s = Screen::new(Color::LIGHT_GREEN.code(), Alignment::Center);
    for i in 0..100 {
        s.print(&format!("Number {}\n", i));
    }
    for r in 0..23u32 {
        let text = format!("Number {}", r + 77);
        let pad = (80 - text.len()) / 2;
        assert_eq!(row_text(&s, r), padded(&text, pad));
    }
    assert_eq!(row_text(&s, 23), padded("Number 99", 35));
    assert_eq!(row_text(&s, 24), blank());
}

#[test]
fn every_attribute_byte_is_the_configured_color() {
    let mut s = Screen::new(Color::RED.code(), Alignment::Center);
    s.print("\n");
    for i in 0..2000u32 {
        assert_eq!(s.read_char(i).color_byte, 0x04);
    }
    s.print("some more text\nand another line\n");
    for i in 0..2000u32 {
        assert_eq!(s.read_char(i).color_byte, 0x04);
    }
}

#[test]
fn empty_centered_row_flushes_as_half_row_of_pad() {
    // A lone line feed: row 0 has visible length 0, pad 40; cells 40..79
    // are untouched by the flush and keep their initial spaces.
    let mut s = Screen::new(Color::RED.code(), Alignment::Center);
    s.print("\n");
    assert_eq!(row_text(&s, 0), blank());
    assert_eq!(s.cursor(), (1, 0));
}

#[test]
fn cursor_stays_in_range() {
    let mut s = Screen::new(Color::WHITE.code(), Alignment::Left);
    let mut chunk = String::new();
    for i in 0..40 {
        for _ in 0..i {
            chunk.push('y');
        }
        chunk.push('\n');
    }
    s.print(&chunk);
    s.print(&chunk);
    let (row, col) = s.cursor();
    assert!(row < 25);
    assert!(col < 80);
}

#[test]
fn add_text_alone_leaves_cells_untouched() {
    let mut s = Screen::new(Color::WHITE.code(), Alignment::Left);
    s.add_text("hello".as_bytes());
    assert_eq!(row_text(&s, 0), blank());
    assert_eq!(s.cursor(), (0, 5));
    s.print("");
    assert_eq!(row_text(&s, 0), padded("hello", 0));
}

#[test]
fn write_and_read_one_cell() {
    let mut s = Screen::new(Color::WHITE.code(), Alignment::Left);
    s.write_char(1999, AsciiChar { char_byte: b'Q', color_byte: 0x17 });
    let back = s.read_char(1999);
    assert_eq!(back.char_byte, b'Q');
    assert_eq!(back.color_byte, 0x17);
    assert_eq!(s.read_char(1998).char_byte, b' ');
}

#[test]
fn write_past_the_region_is_dropped() {
    let mut s = Screen::new(Color::WHITE.code(), Alignment::Left);
    s.write_char(2000, AsciiChar { char_byte: b'Z', color_byte: 0x55 });
    s.write_char(3000, AsciiChar { char_byte: b'Z', color_byte: 0x55 });
    for i in [0u32, 1000, 1999] {
        assert_eq!(s.read_char(i).char_byte, b' ');
        assert_eq!(s.read_char(i).color_byte, 0x0f);
    }
}

#[test]
fn calc_align_pads() {
    let mut row = vec![0u8; 80];
    row[0] = b'a';
    row[1] = b'b';
    row[2] = b'c';
    let left = Screen::new(Color::WHITE.code(), Alignment::Left);
    let right = Screen::new(Color::WHITE.code(), Alignment::Right);
    let center = Screen::new(Color::WHITE.code(), Alignment::Center);
    assert_eq!(left.calc_align(&row), 0);
    assert_eq!(right.calc_align(&row), 77);
    assert_eq!(center.calc_align(&row), 38);
    let full = vec![b'z'; 80];
    assert_eq!(right.calc_align(&full), 0);
    assert_eq!(center.calc_align(&full), 0);
    let empty = vec![0u8; 80];
    assert_eq!(right.calc_align(&empty), 80);
    assert_eq!(center.calc_align(&empty), 40);
}

#[test]
fn right_aligned_full_row_skips_a_hardware_row() {
    // "abc" right-aligned fills its whole hardware row (77 + 3 = 80), so
    // the flush cursor jumps an extra row: shadow row 1 lands on hardware
    // row 2. With "def" as the second line, hardware row 1 keeps its
    // initial spaces and row 2 shows "def".
    let mut s = Screen::new(Color::WHITE.code(), Alignment::Right);
    s.print("abc\ndef\n");
    assert_eq!(row_text(&s, 0), padded("abc", 77));
    assert_eq!(row_text(&s, 1), blank());
    assert_eq!(row_text(&s, 2), padded("def", 77));
}

#[test]
fn nul_input_byte_acts_as_a_terminator() {
    // A 0x00 input byte is stored like any glyph, but 0 is the row
    // terminator, so everything after it in the row stays invisible.
    let mut s = Screen::new(Color::WHITE.code(), Alignment::Left);
    s.print("a\u{0}b\n");
    assert_eq!(row_text(&s, 0), padded("a", 0));
    assert_eq!(s.cursor(), (1, 0));
}

#[test]
fn wrapping_line_then_scroll() {
    // A 100-byte line wraps at column 79 into a second row (the byte on
    // the wrap is discarded); 23 further short lines then scroll both
    // wrapped rows off the top. The flusher rewrites only pad + visible
    // cells of each hardware row, so glyphs from the first flush show
    // through after the short lines that replaced them.
    let mut s = Screen::new(Color::WHITE.code(), Alignment::Left);
    let mut long = String::new();
    for _ in 0..100 {
        long.push('w');
    }
    long.push('\n');
    s.print(&long);
    assert_eq!(s.cursor(), (2, 0));
    let mut w79 = String::new();
    for _ in 0..79 {
        w79.push('w');
    }
    let mut w20 = String::new();
    for _ in 0..20 {
        w20.push('w');
    }
    assert_eq!(row_text(&s, 0), padded(&w79, 0));
    assert_eq!(row_text(&s, 1), padded(&w20, 0));
    // Lines r0..=r22 land in rows 2..=23 with two scrolls on the way.
    let mut rest = String::new();
    for i in 0..23 {
        rest.push_str(&format!("r{}\n", i));
    }
    s.print(&rest);
    // Hardware rows 0 and 1 keep the stale w glyphs past the new text.
    let mut row0 = String::from("r0");
    row0.push_str(&w79[2..]);
    assert_eq!(row_text(&s, 0), padded(&row0, 0));
    let mut row1 = String::from("r1");
    row1.push_str(&w20[2..]);
    assert_eq!(row_text(&s, 1), padded(&row1, 0));
    for r in 2..22u32 {
        assert_eq!(row_text(&s, r), padded(&format!("r{}", r), 0));
    }
    assert_eq!(row_text(&s, 22), padded("r22", 0));
    assert_eq!(row_text(&s, 23), padded("r22", 0));
    assert_eq!(row_text(&s, 24), blank());
    assert_eq!(s.cursor(), (23, 0));
}
