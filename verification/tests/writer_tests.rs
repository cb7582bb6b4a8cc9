use espress_os::{Color, ColorCode, ScreenChar, Writer};

const WIDTH: usize = 80;
const HEIGHT: usize = 25;

fn attr(fg: Color, bg: Color) -> ColorCode {
    ColorCode::new(fg, bg)
}

#[test]
fn color_code_packs_nibbles() {
    assert_eq!(attr(Color::Yellow, Color::Black).0, 0x0E);
    assert_eq!(attr(Color::White, Color::Blue).0, 0x1F);
    assert_eq!(attr(Color::Black, Color::White).0, 0xF0);
    assert_eq!(attr(Color::LightGray, Color::DarkGray).0, 0x87);
}

#[test]
fn write_byte_places_byte_at_cursor() {
    // A printable byte lands at the pre-write cursor column of the bottom
    // row, in the writer's color, and the column advances by one.
    let mut w = Writer::new(Color::Yellow, Color::Black);
    assert_eq!(w.column(), 0);
    w.write_byte(b'A');
    let c = w.cell(HEIGHT - 1, 0);
    assert_eq!(c.ascii_character, b'A');
    assert_eq!(c.color_code, attr(Color::Yellow, Color::Black));
    assert_eq!(w.column(), 1);
    w.write_byte(b'!');
    assert_eq!(w.cell(HEIGHT - 1, 1).ascii_character, b'!');
    assert_eq!(w.column(), 2);
}

#[test]
fn newline_scrolls_and_resets_column() {
    let mut w = Writer::new(Color::White, Color::Black);
    w.write_byte(b'X');
    w.write_byte(b'\n');
    assert_eq!(w.column(), 0);
    // The line just written moved up one row; the bottom row is blank.
    assert_eq!(w.cell(HEIGHT - 2, 0).ascii_character, b'X');
    assert_eq!(w.cell(HEIGHT - 1, 0).ascii_character, b' ');
}

#[test]
fn full_line_wraps_once_then_places_at_column_zero() {
    // WIDTH printable bytes leave the cursor at column WIDTH; the next byte
    // triggers exactly one wrap-scroll and lands at column 0.
    let mut w = Writer::new(Color::White, Color::Black);
    for i in 0..WIDTH {
        w.write_byte(b'a' + (i % 26) as u8);
    }
    assert_eq!(w.column(), WIDTH);
    w.write_byte(b'Z');
    assert_eq!(w.column(), 1);
    assert_eq!(w.cell(HEIGHT - 1, 0).ascii_character, b'Z');
    // The full line scrolled up to the row above.
    assert_eq!(w.cell(HEIGHT - 2, 0).ascii_character, b'a');
    assert_eq!(w.cell(HEIGHT - 2, WIDTH - 1).ascii_character, b'a' + ((WIDTH - 1) % 26) as u8);
}

#[test]
fn filling_grid_once_and_one_more_evicts_first_row() {
    // HEIGHT*WIDTH bytes fill the grid exactly once; one more byte evicts
    // the first row's content and leaves the bottom row holding only the
    // overflow byte followed by blanks.
    let mut w = Writer::new(Color::White, Color::Black);
    for i in 0..HEIGHT * WIDTH {
        w.write_byte(b'0' + (i % 10) as u8);
    }
    w.write_byte(b'@');
    // Bottom row: the overflow byte, then blanks.
    assert_eq!(w.cell(HEIGHT - 1, 0).ascii_character, b'@');
    for col in 1..WIDTH {
        assert_eq!(w.cell(HEIGHT - 1, col).ascii_character, b' ');
    }
    // Every remaining row shows later input: row k holds the bytes of
    // input line k+1, so the first input line is gone everywhere.
    for row in 0..HEIGHT - 1 {
        for col in 0..WIDTH {
            let i = (row + 1) * WIDTH + col;
            assert_eq!(w.cell(row, col).ascii_character, b'0' + (i % 10) as u8);
        }
    }
}

#[test]
fn write_string_passes_printable_and_newline() {
    let mut w = Writer::new(Color::Green, Color::Black);
    w.write_string("Hi!");
    assert_eq!(w.cell(HEIGHT - 1, 0).ascii_character, b'H');
    assert_eq!(w.cell(HEIGHT - 1, 1).ascii_character, b'i');
    assert_eq!(w.cell(HEIGHT - 1, 2).ascii_character, b'!');
    assert_eq!(w.column(), 3);
    w.write_string("\nok");
    assert_eq!(w.cell(HEIGHT - 2, 0).ascii_character, b'H');
    assert_eq!(w.cell(HEIGHT - 1, 0).ascii_character, b'o');
    assert_eq!(w.cell(HEIGHT - 1, 1).ascii_character, b'k');
}

#[test]
fn write_string_substitutes_fallback_glyph_per_byte() {
    // A character outside the printable ASCII range renders as one
    // fallback glyph per byte of its encoding, at the positions the
    // original bytes would have occupied: the count is preserved 1:1.
    let mut w = Writer::new(Color::White, Color::Black);
    let s = "a\u{00E9}b"; // 'é' encodes as two bytes
    assert_eq!(s.len(), 4);
    w.write_string(s);
    assert_eq!(w.column(), 4);
    assert_eq!(w.cell(HEIGHT - 1, 0).ascii_character, b'a');
    assert_eq!(w.cell(HEIGHT - 1, 1).ascii_character, 0xFE);
    assert_eq!(w.cell(HEIGHT - 1, 2).ascii_character, 0xFE);
    assert_eq!(w.cell(HEIGHT - 1, 3).ascii_character, b'b');
}

#[test]
fn write_string_substitutes_for_control_bytes() {
    let mut w = Writer::new(Color::White, Color::Black);
    w.write_string("\t");
    assert_eq!(w.cell(HEIGHT - 1, 0).ascii_character, 0xFE);
    assert_eq!(w.column(), 1);
}

#[test]
fn scrolling_blank_grid_stays_blank() {
    // Scroll idempotence in content-shape: a newline on an all-blank grid
    // leaves an all-blank grid.
    let mut w = Writer::new(Color::White, Color::Black);
    w.write_byte(b'\n');
    let blank = ScreenChar { ascii_character: b' ', color_code: attr(Color::White, Color::Black) };
    for row in 0..HEIGHT {
        for col in 0..WIDTH {
            assert_eq!(w.cell(row, col), blank);
        }
    }
    assert_eq!(w.column(), 0);
}
