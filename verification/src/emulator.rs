//! The in-memory emulation of the text display: caller-supplied
//! dimensions, an independent column/row cursor, per-character colors, and
//! read-only inspection queries that report the grid and cursor as strings.
//!
//! Unlike the byte-oriented writer, this backend operates on logical
//! characters, and silently drops characters outside the printable range
//! instead of substituting a fallback glyph — a deliberate behavioral
//! divergence between the two backends that is preserved, not unified.

use crate::color::Color;
use crate::decimal::{dec_str, push_char, push_decimal};
use crate::grid::{put, scroll_up, uniform_row};
use vstd::prelude::*;
use vstd::string::StrSliceExecFns;
use vstd::string::StringExecFns;

verus! {

/// One emulated cell: the character shown, its foreground color code, and
/// its background color code.
pub type EmuCell = (char, u8, u8);

/// A blank emulated cell: a space in white on black, the default colors.
pub open spec fn blank_emu_cell() -> EmuCell {
    (' ', 15u8, 0u8)
}

/// Whether a character lies in the printable range the emulator displays.
pub open spec fn is_displayable(c: char) -> bool {
    32 <= (c as u32) && (c as u32) < 127
}

/// The mathematical state of a [`VgaEmulator`]: the grid contents, the
/// dimensions, and the cursor position.
pub struct EmulatorView {
    pub grid: Seq<Seq<EmuCell>>,
    pub width: nat,
    pub height: nat,
    pub col: nat,
    pub row: nat,
}

impl EmulatorView {
    /// The dimensions are positive, the grid matches them, and the cursor
    /// is in range: the column at most `width`, the row below `height`.
    pub open spec fn wf(self) -> bool {
        &&& self.width >= 1
        &&& self.height >= 1
        &&& self.grid.len() == self.height
        &&& forall|r: int| 0 <= r < self.grid.len() ==> #[trigger] self.grid[r].len() == self.width
        &&& self.col <= self.width
        &&& self.row < self.height
    }
}

/// The state after advancing to a new line: the column resets and the row
/// advances; when the cursor would leave the grid, the contents scroll up
/// by one row instead and the row stays on the bottom line.
pub open spec fn em_new_line(v: EmulatorView) -> EmulatorView {
    if v.row + 1 >= v.height {
        EmulatorView {
            grid: scroll_up(v.grid, uniform_row(v.width, blank_emu_cell())),
            width: v.width,
            height: v.height,
            col: 0,
            row: (v.height - 1) as nat,
        }
    } else {
        EmulatorView { grid: v.grid, width: v.width, height: v.height, col: 0, row: v.row + 1 }
    }
}

/// The state after writing one character: after a line advance if the
/// current line is full, the character and its colors are placed under the
/// cursor and the column advances by one.
pub open spec fn em_write_char(v: EmulatorView, ch: char, fg: u8, bg: u8) -> EmulatorView {
    let v1 = if v.col >= v.width {
        em_new_line(v)
    } else {
        v
    };
    if v1.row < v1.height {
        EmulatorView {
            grid: put(v1.grid, v1.row as int, v1.col as int, (ch, fg, bg)),
            width: v1.width,
            height: v1.height,
            col: v1.col + 1,
            row: v1.row,
        }
    } else {
        v1
    }
}

/// The state after one character of a string: a newline advances the line,
/// a displayable character is written, anything else is dropped.
pub open spec fn em_step(v: EmulatorView, ch: char, fg: u8, bg: u8) -> EmulatorView {
    if ch == '\n' {
        em_new_line(v)
    } else if is_displayable(ch) {
        em_write_char(v, ch, fg, bg)
    } else {
        v
    }
}

/// The state after a whole string, character by character, first to last.
pub open spec fn em_write_str(v: EmulatorView, s: Seq<char>, fg: u8, bg: u8) -> EmulatorView
    decreases s.len(),
{
    if s.len() == 0 {
        v
    } else {
        em_write_str(em_step(v, s[0], fg, bg), s.drop_first(), fg, bg)
    }
}

/// The state after a full clear: every cell blank, the cursor at the
/// top-left corner, the dimensions unchanged.
pub open spec fn em_clear(v: EmulatorView) -> EmulatorView {
    EmulatorView {
        grid: Seq::new(v.height, |r: int| uniform_row(v.width, blank_emu_cell())),
        width: v.width,
        height: v.height,
        col: 0,
        row: 0,
    }
}

/// The characters of one grid row, in column order.
pub open spec fn row_text(row: Seq<EmuCell>) -> Seq<char> {
    row.map_values(|c: EmuCell| c.0)
}

/// The whole grid as text: each row's characters followed by a newline.
pub open spec fn grid_text(g: Seq<Seq<EmuCell>>) -> Seq<char>
    decreases g.len(),
{
    if g.len() == 0 {
        Seq::empty()
    } else {
        row_text(g[0]) + seq!['\n'] + grid_text(g.drop_first())
    }
}

/// The cursor coordinates as text: the column's numeral, a colon, the
/// row's numeral.
pub open spec fn cursor_text(v: EmulatorView) -> Seq<char> {
    dec_str(v.col) + seq![':'] + dec_str(v.row)
}

/// The text of a cell query: the cell's character, then its two color
/// codes as numerals, colon-separated.
pub open spec fn cell_text(c: EmuCell) -> Seq<char> {
    seq![c.0, ':'] + dec_str(c.1 as nat) + seq![':'] + dec_str(c.2 as nat)
}

/// The sentinel text returned for an out-of-range cell query: a blank
/// cell in the default colors.
pub open spec fn sentinel_text() -> Seq<char> {
    seq![' ', ':', '1', '5', ':', '0']
}

/// Grid text grows row by row: appending one row appends its characters
/// and a newline.
proof fn lemma_grid_text_snoc(g: Seq<Seq<EmuCell>>, row: Seq<EmuCell>)
    ensures
        grid_text(g.push(row)) == grid_text(g) + row_text(row) + seq!['\n'],
    decreases g.len(),
{
    if g.len() == 0 {
        assert(g.push(row)[0] == row);
        assert(g.push(row).drop_first() =~= Seq::<Seq<EmuCell>>::empty());
        assert(grid_text(g.push(row)) == row_text(row) + seq!['\n'] + grid_text(
            Seq::<Seq<EmuCell>>::empty(),
        ));
        assert(grid_text(Seq::<Seq<EmuCell>>::empty()) =~= Seq::<char>::empty());
        assert(grid_text(g) =~= Seq::<char>::empty());
        assert(grid_text(g.push(row)) =~= grid_text(g) + row_text(row) + seq!['\n']);
    } else {
        assert(g.push(row)[0] == g[0]);
        assert(g.push(row).drop_first() =~= g.drop_first().push(row));
        lemma_grid_text_snoc(g.drop_first(), row);
        assert(grid_text(g.push(row)) =~= grid_text(g) + row_text(row) + seq!['\n']);
    }
}

/// Writing one more character at the end steps the state once more.
proof fn lemma_em_write_str_snoc(v: EmulatorView, s: Seq<char>, ch: char, fg: u8, bg: u8)
    ensures
        em_write_str(v, s.push(ch), fg, bg) == em_step(em_write_str(v, s, fg, bg), ch, fg, bg),
    decreases s.len(),
{
    if s.len() == 0 {
        assert(s.push(ch)[0] == ch);
        assert(s.push(ch).drop_first() =~= Seq::<char>::empty());
        assert(em_write_str(v, s.push(ch), fg, bg) == em_write_str(
            em_step(v, ch, fg, bg),
            s.push(ch).drop_first(),
            fg,
            bg,
        ));
        assert(em_write_str(em_step(v, ch, fg, bg), s.push(ch).drop_first(), fg, bg) == em_step(
            v,
            ch,
            fg,
            bg,
        ));
        assert(em_write_str(v, s, fg, bg) == v);
    } else {
        assert(s.push(ch)[0] == s[0]);
        assert(s.push(ch).drop_first() =~= s.drop_first().push(ch));
        lemma_em_write_str_snoc(em_step(v, s[0], fg, bg), s.drop_first(), ch, fg, bg);
        assert(em_write_str(v, s.push(ch), fg, bg) == em_write_str(
            em_step(v, s[0], fg, bg),
            s.drop_first().push(ch),
            fg,
            bg,
        ));
    }
}

/// A clear leaves the cursor at the top-left corner, so the cursor query
/// after a clear reads exactly "0:0".
pub proof fn lemma_cursor_after_clear(v: EmulatorView)
    ensures
        em_clear(v).col == 0,
        em_clear(v).row == 0,
        cursor_text(em_clear(v)) == seq!['0', ':', '0'],
{
    assert(cursor_text(em_clear(v)) =~= seq!['0', ':', '0']);
}

/// The emulated text display.
pub struct VgaEmulator {
    /// The grid contents, row-major: `height` rows of `width` cells.
    buffer: Vec<Vec<EmuCell>>,
    /// Screen width in characters; at least 1.
    width: usize,
    /// Screen height in characters; at least 1.
    height: usize,
    /// Current cursor column; at most `width`.
    cursor_x: usize,
    /// Current cursor row; below `height`.
    cursor_y: usize,
}

impl View for VgaEmulator {
    type V = EmulatorView;

    closed spec fn view(&self) -> EmulatorView {
        EmulatorView {
            grid: self.buffer@.map_values(|row: Vec<EmuCell>| row@),
            width: self.width as nat,
            height: self.height as nat,
            col: self.cursor_x as nat,
            row: self.cursor_y as nat,
        }
    }
}

impl VgaEmulator {
    /// The emulator's state is well-formed.
    pub open spec fn wf(&self) -> bool {
        self@.wf()
    }

    /// The grid dimensions of a well-formed emulator, stated over the
    /// underlying vectors.
    proof fn lemma_dims(&self)
        requires
            self.wf(),
        ensures
            self.buffer@.len() == self.height,
            forall|i: int| 0 <= i < self.height ==> #[trigger] self.buffer@[i]@.len() == self.width,
            self.cursor_x <= self.width,
            self.cursor_y < self.height,
            self.width >= 1,
            self.height >= 1,
    {
        assert(self@.grid.len() == self.height);
        assert forall|i: int| 0 <= i < self.height implies #[trigger] self.buffer@[i]@.len()
            == self.width by {
            assert(self@.grid[i].len() == self.width);
        }
    }

    /// A fresh emulator of the given dimensions: every cell blank and the
    /// cursor at the top-left corner.
    pub fn new(width: usize, height: usize) -> (e: VgaEmulator)
        requires
            width >= 1,
            height >= 1,
        ensures
            e.wf(),
            e@.width == width,
            e@.height == height,
            e@.col == 0,
            e@.row == 0,
            e@.grid == Seq::new(height as nat, |r: int| uniform_row(width as nat, blank_emu_cell())),
    {
        let blank: EmuCell = (' ', Color::White.code(), Color::Black.code());
        let mut buffer: Vec<Vec<EmuCell>> = Vec::new();
        let mut r: usize = 0;
        while r < height
            invariant
                r <= height,
                buffer@.len() == r,
                blank == blank_emu_cell(),
                forall|i: int|
                    0 <= i < r ==> #[trigger] buffer@[i]@ == uniform_row(
                        width as nat,
                        blank_emu_cell(),
                    ),
            decreases height - r,
        {
            let mut row: Vec<EmuCell> = Vec::new();
            let mut c: usize = 0;
            while c < width
                invariant
                    c <= width,
                    row@.len() == c,
                    blank == blank_emu_cell(),
                    forall|j: int| 0 <= j < c ==> #[trigger] row@[j] == blank_emu_cell(),
                decreases width - c,
            {
                row.push(blank);
                c += 1;
            }
            proof {
                assert(row@ =~= uniform_row(width as nat, blank_emu_cell()));
            }
            buffer.push(row);
            r += 1;
        }
        let e = VgaEmulator { buffer, width, height, cursor_x: 0, cursor_y: 0 };
        proof {
            assert(e@.grid =~= Seq::new(
                height as nat,
                |i: int| uniform_row(width as nat, blank_emu_cell()),
            ));
        }
        e
    }

    /// Advances to a new line, scrolling the grid contents up by one row
    /// when the cursor would otherwise leave the bottom of the screen.
    pub fn new_line(&mut self)
        requires
            old(self).wf(),
        ensures
            final(self).wf(),
            final(self)@ == em_new_line(old(self)@),
    {
        proof {
            self.lemma_dims();
        }
        self.cursor_x = 0;
        self.cursor_y = self.cursor_y + 1;
        if self.cursor_y >= self.height {
            let ghost g0 = self@.grid;
            let mut y: usize = 1;
            while y < self.height
                invariant
                    old(self).wf(),
                    1 <= y <= self.height,
                    g0 == old(self)@.grid,
                    self.width == old(self).width,
                    self.height == old(self).height,
                    self.cursor_x == 0,
                    self.cursor_y == self.height,
                    self.buffer@.len() == self.height,
                    forall|i: int|
                        0 <= i < self.height ==> #[trigger] self.buffer@[i]@.len() == self.width,
                    forall|i: int| 0 <= i < y - 1 ==> #[trigger] self.buffer@[i]@ == g0[i + 1],
                    forall|i: int| y - 1 <= i < self.height ==> #[trigger] self.buffer@[i]@ == g0[i],
                decreases self.height - y,
            {
                let mut x: usize = 0;
                while x < self.width
                    invariant
                        old(self).wf(),
                        1 <= y < self.height,
                        x <= self.width,
                        g0 == old(self)@.grid,
                        self.width == old(self).width,
                        self.height == old(self).height,
                        self.cursor_x == 0,
                        self.cursor_y == self.height,
                        self.buffer@.len() == self.height,
                        forall|i: int|
                            0 <= i < self.height ==> #[trigger] self.buffer@[i]@.len()
                                == self.width,
                        forall|i: int| 0 <= i < y - 1 ==> #[trigger] self.buffer@[i]@ == g0[i + 1],
                        forall|i: int| y <= i < self.height ==> #[trigger] self.buffer@[i]@ == g0[i],
                        forall|j: int|
                            0 <= j < x ==> #[trigger] self.buffer@[y as int - 1]@[j] == g0[y as int][j],
                        forall|j: int|
                            x <= j < self.width ==> #[trigger] self.buffer@[y as int - 1]@[j] == g0[y
                                as int - 1][j],
                    decreases self.width - x,
                {
                    let cellv = self.buffer[y][x];
                    self.buffer[y - 1][x] = cellv;
                    x += 1;
                }
                proof {
                    assert(self.buffer@[y as int - 1]@ =~= g0[y as int]);
                }
                y += 1;
            }
            // Clear the newly exposed bottom line.
            let blank: EmuCell = (' ', Color::White.code(), Color::Black.code());
            let bottom = self.height - 1;
            let mut x: usize = 0;
            while x < self.width
                invariant
                    old(self).wf(),
                    x <= self.width,
                    bottom == self.height - 1,
                    g0 == old(self)@.grid,
                    blank == blank_emu_cell(),
                    self.width == old(self).width,
                    self.height == old(self).height,
                    self.cursor_x == 0,
                    self.cursor_y == self.height,
                    self.buffer@.len() == self.height,
                    forall|i: int|
                        0 <= i < self.height ==> #[trigger] self.buffer@[i]@.len() == self.width,
                    forall|i: int|
                        0 <= i < self.height - 1 ==> #[trigger] self.buffer@[i]@ == g0[i + 1],
                    forall|j: int|
                        0 <= j < x ==> #[trigger] self.buffer@[bottom as int]@[j]
                            == blank_emu_cell(),
                    forall|j: int|
                        x <= j < self.width ==> #[trigger] self.buffer@[bottom as int]@[j] == g0[
                            bottom as int
                        ][j],
                decreases self.width - x,
            {
                self.buffer[bottom][x] = blank;
                x += 1;
            }
            self.cursor_y = self.height - 1;
            proof {
                assert(final(self)@.grid =~~= scroll_up(
                    g0,
                    uniform_row(old(self)@.width, blank_emu_cell()),
                ));
            }
        }
    }

    /// Writes one character with the given colors at the cursor position,
    /// first advancing the line if the current one is full, and moves the
    /// cursor one column to the right.
    pub fn write_char(&mut self, ch: char, fg_color: u8, bg_color: u8)
        requires
            old(self).wf(),
        ensures
            final(self).wf(),
            final(self)@ == em_write_char(old(self)@, ch, fg_color, bg_color),
    {
        if self.cursor_x >= self.width {
            self.new_line();
        }
        proof {
            self.lemma_dims();
        }
        let ghost mid = self@;
        if self.cursor_y < self.height {
            let y = self.cursor_y;
            let x = self.cursor_x;
            self.buffer[y][x] = (ch, fg_color, bg_color);
            self.cursor_x = x + 1;
            proof {
                assert(final(self)@.grid =~~= put(
                    mid.grid,
                    mid.row as int,
                    mid.col as int,
                    (ch, fg_color, bg_color),
                ));
            }
        }
    }

    /// Writes a string character-wise with the given colors: newlines
    /// advance the line, displayable characters are written, and every
    /// other character is silently dropped.
    pub fn write_string(&mut self, s: &str, fg_color: u8, bg_color: u8)
        requires
            old(self).wf(),
        ensures
            final(self).wf(),
            final(self)@ == em_write_str(old(self)@, s@, fg_color, bg_color),
    {
        let ghost v0 = self@;
        let n = s.unicode_len();
        let mut i: usize = 0;
        while i < n
            invariant
                old(self).wf(),
                v0 == old(self)@,
                n == s@.len(),
                i <= n,
                self.wf(),
                self@ == em_write_str(v0, s@.take(i as int), fg_color, bg_color),
            decreases n - i,
        {
            let ch = s.get_char(i);
            proof {
                assert(s@.take(i + 1) =~= s@.take(i as int).push(s@[i as int]));
                lemma_em_write_str_snoc(v0, s@.take(i as int), s@[i as int], fg_color, bg_color);
            }
            if ch == '\n' {
                self.new_line();
            } else if ch as u32 >= 32 && (ch as u32) < 127 {
                self.write_char(ch, fg_color, bg_color);
            }
            i += 1;
        }
        proof {
            assert(s@.take(n as int) =~= s@);
        }
    }

    /// Resets every cell to a blank in the default colors and puts the
    /// cursor back at the top-left corner.
    pub fn clear(&mut self)
        requires
            old(self).wf(),
        ensures
            final(self).wf(),
            final(self)@ == em_clear(old(self)@),
    {
        proof {
            self.lemma_dims();
        }
        let blank: EmuCell = (' ', Color::White.code(), Color::Black.code());
        let mut y: usize = 0;
        while y < self.height
            invariant
                old(self).wf(),
                y <= self.height,
                blank == blank_emu_cell(),
                self.width == old(self).width,
                self.height == old(self).height,
                self.cursor_x == old(self).cursor_x,
                self.cursor_y == old(self).cursor_y,
                self.buffer@.len() == self.height,
                forall|i: int|
                    0 <= i < self.height ==> #[trigger] self.buffer@[i]@.len() == self.width,
                forall|i: int|
                    0 <= i < y ==> #[trigger] self.buffer@[i]@ == uniform_row(
                        self.width as nat,
                        blank_emu_cell(),
                    ),
            decreases self.height - y,
        {
            let mut x: usize = 0;
            while x < self.width
                invariant
                    old(self).wf(),
                    y < self.height,
                    x <= self.width,
                    blank == blank_emu_cell(),
                    self.width == old(self).width,
                    self.height == old(self).height,
                    self.cursor_x == old(self).cursor_x,
                    self.cursor_y == old(self).cursor_y,
                    self.buffer@.len() == self.height,
                    forall|i: int|
                        0 <= i < self.height ==> #[trigger] self.buffer@[i]@.len() == self.width,
                    forall|i: int|
                        0 <= i < y ==> #[trigger] self.buffer@[i]@ == uniform_row(
                            self.width as nat,
                            blank_emu_cell(),
                        ),
                    forall|j: int|
                        0 <= j < x ==> #[trigger] self.buffer@[y as int]@[j] == blank_emu_cell(),
                decreases self.width - x,
            {
                self.buffer[y][x] = blank;
                x += 1;
            }
            proof {
                assert(self.buffer@[y as int]@ =~= uniform_row(self.width as nat, blank_emu_cell()));
            }
            y += 1;
        }
        self.cursor_x = 0;
        self.cursor_y = 0;
        proof {
            assert(final(self)@.grid =~~= em_clear(old(self)@).grid);
        }
    }

    /// The whole grid as one string: each row's characters in order,
    /// each row followed by a newline.
    pub fn get_buffer_as_string(&self) -> (result: String)
        requires
            self.wf(),
        ensures
            result@ == grid_text(self@.grid),
    {
        proof {
            self.lemma_dims();
        }
        let mut result = String::new();
        let mut y: usize = 0;
        while y < self.height
            invariant
                self.wf(),
                y <= self.height,
                self.buffer@.len() == self.height,
                forall|i: int|
                    0 <= i < self.height ==> #[trigger] self.buffer@[i]@.len() == self.width,
                result@ == grid_text(self@.grid.take(y as int)),
            decreases self.height - y,
        {
            let mut x: usize = 0;
            while x < self.width
                invariant
                    self.wf(),
                    y < self.height,
                    x <= self.width,
                    self.buffer@.len() == self.height,
                    forall|i: int|
                        0 <= i < self.height ==> #[trigger] self.buffer@[i]@.len() == self.width,
                    result@ == grid_text(self@.grid.take(y as int)) + row_text(
                        self@.grid[y as int].take(x as int),
                    ),
                decreases self.width - x,
            {
                let c = self.buffer[y][x];
                push_char(&mut result, c.0);
                proof {
                    assert(row_text(self@.grid[y as int].take(x + 1)) =~= row_text(
                        self@.grid[y as int].take(x as int),
                    ).push(self@.grid[y as int][x as int].0));
                    assert(self@.grid[y as int][x as int] == self.buffer@[y as int]@[x as int]);
                }
                x += 1;
            }
            push_char(&mut result, '\n');
            proof {
                assert(self@.grid[y as int].take(self.width as int) =~= self@.grid[y as int]);
                assert(self@.grid.take(y as int).push(self@.grid[y as int]) =~= self@.grid.take(
                    y + 1,
                ));
                lemma_grid_text_snoc(self@.grid.take(y as int), self@.grid[y as int]);
                assert(row_text(self@.grid[y as int].take(0int)) =~= Seq::<char>::empty());
            }
            y += 1;
        }
        proof {
            assert(self@.grid.take(self.height as int) =~= self@.grid);
        }
        result
    }

    /// The character and colors at a coordinate, as
    /// "character:foreground:background"; the blank sentinel " :15:0" for
    /// any coordinate outside the grid, whatever was written before.
    pub fn get_char_at(&self, x: usize, y: usize) -> (result: String)
        requires
            self.wf(),
        ensures
            x < self@.width && y < self@.height ==> result@ == cell_text(
                self@.grid[y as int][x as int],
            ),
            !(x < self@.width && y < self@.height) ==> result@ == sentinel_text(),
    {
        proof {
            self.lemma_dims();
        }
        if x < self.width && y < self.height {
            let c = self.buffer[y][x];
            let mut result = String::new();
            push_char(&mut result, c.0);
            push_char(&mut result, ':');
            push_decimal(&mut result, c.1 as u64);
            push_char(&mut result, ':');
            push_decimal(&mut result, c.2 as u64);
            proof {
                assert(c == self@.grid[y as int][x as int]);
                assert(result@ =~= cell_text(self@.grid[y as int][x as int]));
            }
            result
        } else {
            let result = String::from_str(" :15:0");
            proof {
                reveal_strlit(" :15:0");
                assert(result@ =~= sentinel_text());
            }
            result
        }
    }

    /// The cursor position as "column:row".
    pub fn get_cursor_position(&self) -> (result: String)
        requires
            self.wf(),
        ensures
            result@ == cursor_text(self@),
    {
        proof {
            self.lemma_dims();
        }
        let mut result = String::new();
        push_decimal(&mut result, self.cursor_x as u64);
        push_char(&mut result, ':');
        push_decimal(&mut result, self.cursor_y as u64);
        proof {
            assert(result@ =~= cursor_text(self@));
        }
        result
    }
}

} // verus!
