//! The text writer with the dimensions and cell encoding of the
//! memory-mapped text buffer: one active bottom line, line wrap, and
//! scroll-on-overflow.
//!
//! The writer renders every byte to the fixed bottom row. A newline, or a
//! write past the last column, scrolls the whole grid up by one row first.
//! Bytes outside the printable range `0x20..=0x7e` are replaced by a fixed
//! fallback glyph before being rendered; this happens byte by byte, so a
//! multi-byte encoded character renders as one fallback glyph per byte.

use crate::color::{Color, ColorCode};
use crate::grid::{put, scroll_up, uniform_row};
use vstd::prelude::*;
use vstd::string::StringSliceAdditionalSpecFns;

verus! {

/// Number of character columns of the text buffer.
pub const BUFFER_WIDTH: usize = 80;

/// Number of character rows of the text buffer.
pub const BUFFER_HEIGHT: usize = 25;

/// The byte that advances the writer to a new line.
pub const NEWLINE: u8 = 0x0a;

/// The glyph substituted for a byte outside the printable range.
pub const FALLBACK_GLYPH: u8 = 0xfe;

/// One cell of the text buffer: a display character and its attribute
/// byte, in that order, matching the two-byte cell layout of the
/// memory-mapped buffer.
#[derive(Debug, Clone, Copy, PartialEq, Eq, Structural)]
pub struct ScreenChar {
    /// The character shown at this position.
    pub ascii_character: u8,
    /// The packed foreground/background attribute of this position.
    pub color_code: ColorCode,
}

/// The mathematical state of a [`Writer`]: the grid contents, the cursor
/// column, and the color used for new text.
pub struct WriterView {
    pub grid: Seq<Seq<ScreenChar>>,
    pub col: nat,
    pub color: ColorCode,
}

/// A blank cell: a space in the given color.
pub open spec fn blank_cell(color: ColorCode) -> ScreenChar {
    ScreenChar { ascii_character: 0x20, color_code: color }
}

/// A blank row in the given color.
pub open spec fn blank_row(color: ColorCode) -> Seq<ScreenChar> {
    uniform_row(BUFFER_WIDTH as nat, blank_cell(color))
}

impl WriterView {
    /// The grid has exactly `BUFFER_HEIGHT` rows of `BUFFER_WIDTH` cells,
    /// and the cursor column is at most `BUFFER_WIDTH`.
    pub open spec fn wf(self) -> bool {
        &&& self.grid.len() == BUFFER_HEIGHT
        &&& forall|r: int| 0 <= r < self.grid.len() ==> #[trigger] self.grid[r].len() == BUFFER_WIDTH
        &&& self.col <= BUFFER_WIDTH
    }
}

/// The writer state after one byte is rendered.
///
/// A newline scrolls the grid and resets the column. Any other byte is
/// placed at the bottom row under the cursor — after a wrap-scroll if the
/// line is already full — and advances the column by one.
pub open spec fn wr_byte(v: WriterView, b: u8) -> WriterView {
    if b == NEWLINE {
        WriterView {
            grid: scroll_up(v.grid, blank_row(v.color)),
            col: 0,
            color: v.color,
        }
    } else if v.col >= BUFFER_WIDTH {
        let scrolled = scroll_up(v.grid, blank_row(v.color));
        WriterView {
            grid: put(
                scrolled,
                BUFFER_HEIGHT - 1,
                0,
                ScreenChar { ascii_character: b, color_code: v.color },
            ),
            col: 1,
            color: v.color,
        }
    } else {
        WriterView {
            grid: put(
                v.grid,
                BUFFER_HEIGHT - 1,
                v.col as int,
                ScreenChar { ascii_character: b, color_code: v.color },
            ),
            col: v.col + 1,
            color: v.color,
        }
    }
}

/// The writer state after a sequence of bytes is rendered, first to last.
pub open spec fn wr_bytes(v: WriterView, bs: Seq<u8>) -> WriterView
    decreases bs.len(),
{
    if bs.len() == 0 {
        v
    } else {
        wr_bytes(wr_byte(v, bs[0]), bs.drop_first())
    }
}

/// Whether a byte lies in the printable range rendered verbatim.
pub open spec fn is_printable(b: u8) -> bool {
    0x20 <= b <= 0x7e
}

/// The byte actually rendered for an input byte: printable bytes and
/// newlines pass unchanged, every other byte becomes the fallback glyph.
pub open spec fn classify_byte(b: u8) -> u8 {
    if is_printable(b) || b == NEWLINE {
        b
    } else {
        FALLBACK_GLYPH
    }
}

/// Byte-wise classification of a whole input.
pub open spec fn classify_bytes(bs: Seq<u8>) -> Seq<u8> {
    bs.map_values(|b: u8| classify_byte(b))
}

/// Rendering bytes one more at the end equals rendering the prefix and then
/// the last byte.
pub proof fn lemma_wr_bytes_snoc(v: WriterView, bs: Seq<u8>, b: u8)
    ensures
        wr_bytes(v, bs.push(b)) == wr_byte(wr_bytes(v, bs), b),
    decreases bs.len(),
{
    if bs.len() == 0 {
        assert(bs.push(b)[0] == b);
        assert(bs.push(b).drop_first() =~= Seq::<u8>::empty());
        assert(wr_bytes(v, bs.push(b)) == wr_bytes(wr_byte(v, b), bs.push(b).drop_first()));
        assert(wr_bytes(wr_byte(v, b), bs.push(b).drop_first()) == wr_byte(v, b));
        assert(wr_bytes(v, bs) == v);
    } else {
        assert(bs.push(b)[0] == bs[0]);
        assert(bs.push(b).drop_first() =~= bs.drop_first().push(b));
        lemma_wr_bytes_snoc(wr_byte(v, bs[0]), bs.drop_first(), b);
        assert(wr_bytes(v, bs.push(b)) == wr_bytes(wr_byte(v, bs[0]), bs.drop_first().push(b)));
    }
}

/// Rendering preserves well-formedness of the state.
pub proof fn lemma_wr_byte_wf(v: WriterView, b: u8)
    requires
        v.wf(),
    ensures
        wr_byte(v, b).wf(),
        wr_byte(v, b).color == v.color,
{
}

/// Rendering any byte sequence preserves well-formedness and the color.
pub proof fn lemma_wr_bytes_wf(v: WriterView, bs: Seq<u8>)
    requires
        v.wf(),
    ensures
        wr_bytes(v, bs).wf(),
        wr_bytes(v, bs).color == v.color,
    decreases bs.len(),
{
    if bs.len() > 0 {
        lemma_wr_byte_wf(v, bs[0]);
        lemma_wr_bytes_wf(wr_byte(v, bs[0]), bs.drop_first());
    }
}

/// The text writer over an owned grid with the memory-mapped buffer's
/// dimensions and cell encoding.
pub struct Writer {
    /// Current cursor column; at most `BUFFER_WIDTH`.
    column_position: usize,
    /// The attribute byte given to newly written text.
    color_code: ColorCode,
    /// The grid contents, row-major: `BUFFER_HEIGHT` rows of
    /// `BUFFER_WIDTH` cells.
    buffer: Vec<Vec<ScreenChar>>,
}

impl View for Writer {
    type V = WriterView;

    closed spec fn view(&self) -> WriterView {
        WriterView {
            grid: self.buffer@.map_values(|row: Vec<ScreenChar>| row@),
            col: self.column_position as nat,
            color: self.color_code,
        }
    }
}

impl Writer {
    /// The writer's state is well-formed.
    pub open spec fn wf(&self) -> bool {
        self@.wf()
    }

    /// The grid dimensions of a well-formed writer, stated over the
    /// underlying vectors.
    proof fn lemma_dims(&self)
        requires
            self.wf(),
        ensures
            self.buffer@.len() == BUFFER_HEIGHT,
            forall|i: int| 0 <= i < BUFFER_HEIGHT ==> #[trigger] self.buffer@[i]@.len() == BUFFER_WIDTH,
            self.column_position <= BUFFER_WIDTH,
    {
        assert(self@.grid.len() == BUFFER_HEIGHT);
        assert forall|i: int| 0 <= i < BUFFER_HEIGHT implies #[trigger] self.buffer@[i]@.len()
            == BUFFER_WIDTH by {
            assert(self@.grid[i].len() == BUFFER_WIDTH);
        }
    }

    /// A writer over a fresh all-blank grid, with the cursor at column 0
    /// and the given text colors.
    pub fn new(foreground: Color, background: Color) -> (w: Writer)
        ensures
            w.wf(),
            w@.col == 0,
            w@.color.0 == (background.spec_code() << 4) | foreground.spec_code(),
            w@.grid == Seq::new(BUFFER_HEIGHT as nat, |r: int| blank_row(w@.color)),
    {
        let color_code = ColorCode::new(foreground, background);
        let blank = ScreenChar { ascii_character: 0x20, color_code };
        let mut buffer: Vec<Vec<ScreenChar>> = Vec::new();
        let mut r: usize = 0;
        while r < BUFFER_HEIGHT
            invariant
                r <= BUFFER_HEIGHT,
                buffer@.len() == r,
                blank == blank_cell(blank.color_code),
                forall|i: int| 0 <= i < r ==> #[trigger] buffer@[i]@ == blank_row(blank.color_code),
            decreases BUFFER_HEIGHT - r,
        {
            let mut row: Vec<ScreenChar> = Vec::new();
            let mut c: usize = 0;
            while c < BUFFER_WIDTH
                invariant
                    c <= BUFFER_WIDTH,
                    row@.len() == c,
                    blank == blank_cell(blank.color_code),
                    forall|j: int| 0 <= j < c ==> #[trigger] row@[j] == blank_cell(blank.color_code),
                decreases BUFFER_WIDTH - c,
            {
                row.push(blank);
                c += 1;
            }
            proof {
                assert(row@ =~= blank_row(blank.color_code));
            }
            buffer.push(row);
            r += 1;
        }
        let w = Writer { column_position: 0, color_code, buffer };
        proof {
            assert(w@.grid =~= Seq::new(BUFFER_HEIGHT as nat, |i: int| blank_row(w@.color)));
        }
        w
    }

    /// The current cursor column.
    pub fn column(&self) -> (c: usize)
        ensures
            c == self@.col,
    {
        self.column_position
    }

    /// The cell at the given position of the grid.
    pub fn cell(&self, row: usize, col: usize) -> (c: ScreenChar)
        requires
            self.wf(),
            row < BUFFER_HEIGHT,
            col < BUFFER_WIDTH,
        ensures
            c == self@.grid[row as int][col as int],
    {
        proof {
            self.lemma_dims();
        }
        self.buffer[row][col]
    }

    /// Fills one row with blank cells in the writer's current color.
    fn clear_row(&mut self, row: usize)
        requires
            old(self).wf(),
            row < BUFFER_HEIGHT,
        ensures
            final(self).wf(),
            final(self)@.grid == old(self)@.grid.update(row as int, blank_row(old(self)@.color)),
            final(self)@.col == old(self)@.col,
            final(self)@.color == old(self)@.color,
    {
        proof {
            self.lemma_dims();
        }
        let blank = ScreenChar { ascii_character: 0x20, color_code: self.color_code };
        let ghost g0 = self@.grid;
        let mut col: usize = 0;
        while col < BUFFER_WIDTH
            invariant
                old(self).wf(),
                col <= BUFFER_WIDTH,
                row < BUFFER_HEIGHT,
                g0 == old(self)@.grid,
                blank == blank_cell(old(self)@.color),
                self.column_position == old(self).column_position,
                self.color_code == old(self).color_code,
                self.buffer@.len() == BUFFER_HEIGHT,
                self.buffer@[row as int]@.len() == BUFFER_WIDTH,
                forall|i: int| 0 <= i < BUFFER_HEIGHT && i != row ==> #[trigger] self.buffer@[i]@ == g0[i],
                forall|j: int| 0 <= j < col ==> #[trigger] self.buffer@[row as int]@[j] == blank,
                forall|j: int| col <= j < BUFFER_WIDTH ==> #[trigger] self.buffer@[row as int]@[j] == g0[row as int][j],
            decreases BUFFER_WIDTH - col,
        {
            self.buffer[row][col] = blank;
            col += 1;
        }
        proof {
            assert(final(self)@.grid =~~= old(self)@.grid.update(row as int, blank_row(old(self)@.color)));
        }
    }

    /// Shifts every row up by one, clears the bottom row in the writer's
    /// current color, and resets the cursor to column 0. The former top
    /// row's content is discarded.
    fn new_line(&mut self)
        requires
            old(self).wf(),
        ensures
            final(self).wf(),
            final(self)@.grid == scroll_up(old(self)@.grid, blank_row(old(self)@.color)),
            final(self)@.col == 0,
            final(self)@.color == old(self)@.color,
    {
        proof {
            self.lemma_dims();
        }
        let ghost g0 = self@.grid;
        let mut row: usize = 1;
        while row < BUFFER_HEIGHT
            invariant
                old(self).wf(),
                1 <= row <= BUFFER_HEIGHT,
                g0 == old(self)@.grid,
                self.column_position == old(self).column_position,
                self.color_code == old(self).color_code,
                self.buffer@.len() == BUFFER_HEIGHT,
                forall|i: int| 0 <= i < BUFFER_HEIGHT ==> #[trigger] self.buffer@[i]@.len() == BUFFER_WIDTH,
                forall|i: int| 0 <= i < row - 1 ==> #[trigger] self.buffer@[i]@ == g0[i + 1],
                forall|i: int| row - 1 <= i < BUFFER_HEIGHT ==> #[trigger] self.buffer@[i]@ == g0[i],
            decreases BUFFER_HEIGHT - row,
        {
            let mut col: usize = 0;
            while col < BUFFER_WIDTH
                invariant
                    old(self).wf(),
                    1 <= row < BUFFER_HEIGHT,
                    col <= BUFFER_WIDTH,
                    g0 == old(self)@.grid,
                    self.column_position == old(self).column_position,
                    self.color_code == old(self).color_code,
                    self.buffer@.len() == BUFFER_HEIGHT,
                    forall|i: int| 0 <= i < BUFFER_HEIGHT ==> #[trigger] self.buffer@[i]@.len() == BUFFER_WIDTH,
                    forall|i: int| 0 <= i < row - 1 ==> #[trigger] self.buffer@[i]@ == g0[i + 1],
                    forall|i: int| row <= i < BUFFER_HEIGHT ==> #[trigger] self.buffer@[i]@ == g0[i],
                    forall|j: int| 0 <= j < col ==> #[trigger] self.buffer@[row as int - 1]@[j] == g0[row as int][j],
                    forall|j: int| col <= j < BUFFER_WIDTH ==> #[trigger] self.buffer@[row as int - 1]@[j] == g0[row as int - 1][j],
                decreases BUFFER_WIDTH - col,
            {
                let character = self.buffer[row][col];
                self.buffer[row - 1][col] = character;
                col += 1;
            }
            proof {
                assert(self.buffer@[row as int - 1]@ =~= g0[row as int]);
            }
            row += 1;
        }
        self.clear_row(BUFFER_HEIGHT - 1);
        self.column_position = 0;
        proof {
            assert(final(self)@.grid =~~= scroll_up(old(self)@.grid, blank_row(old(self)@.color)));
        }
    }

    /// Renders one byte: a newline advances the line (scrolling the grid);
    /// any other byte is placed at the bottom row under the cursor, after a
    /// wrap-scroll if the line is full, and advances the cursor.
    pub fn write_byte(&mut self, byte: u8)
        requires
            old(self).wf(),
        ensures
            final(self).wf(),
            final(self)@ == wr_byte(old(self)@, byte),
    {
        if byte == NEWLINE {
            self.new_line();
        } else {
            if self.column_position >= BUFFER_WIDTH {
                self.new_line();
            }
            proof {
                self.lemma_dims();
            }
            let ghost mid = self@;
            let row = BUFFER_HEIGHT - 1;
            let col = self.column_position;
            let color_code = self.color_code;
            self.buffer[row][col] = ScreenChar { ascii_character: byte, color_code };
            self.column_position = col + 1;
            proof {
                assert(final(self)@.grid =~~= put(
                    mid.grid,
                    BUFFER_HEIGHT - 1,
                    mid.col as int,
                    ScreenChar { ascii_character: byte, color_code: mid.color },
                ));
            }
        }
    }

    /// Renders a string byte-wise: printable bytes and newlines are passed
    /// through; every other byte is first replaced by the fallback glyph.
    /// A multi-byte encoded character therefore renders as one fallback
    /// glyph per byte of its encoding.
    pub fn write_string(&mut self, s: &str)
        requires
            old(self).wf(),
        ensures
            final(self).wf(),
            final(self)@ == wr_bytes(old(self)@, classify_bytes(s.spec_bytes())),
    {
        let bytes = s.as_bytes();
        let ghost v0 = self@;
        let n = bytes.len();
        let mut i: usize = 0;
        while i < n
            invariant
                old(self).wf(),
                v0 == old(self)@,
                n == bytes@.len(),
                i <= n,
                self.wf(),
                self@ == wr_bytes(v0, classify_bytes(bytes@.take(i as int))),
            decreases n - i,
        {
            let byte = bytes[i];
            proof {
                assert(classify_bytes(bytes@.take(i + 1)) =~= classify_bytes(
                    bytes@.take(i as int),
                ).push(classify_byte(bytes@[i as int])));
                lemma_wr_bytes_snoc(v0, classify_bytes(bytes@.take(i as int)), classify_byte(bytes@[i as int]));
            }
            if (0x20 <= byte && byte <= 0x7e) || byte == NEWLINE {
                self.write_byte(byte);
            } else {
                self.write_byte(FALLBACK_GLYPH);
            }
            i += 1;
        }
        proof {
            assert(bytes@.take(n as int) =~= bytes@);
        }
    }
}

} // verus!
