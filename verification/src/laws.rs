//! Proved laws of the writer's rendering model: what one byte does to the
//! grid, how a full line wraps, how filling the whole grid and overflowing
//! it evicts every original row, and how byte classification substitutes
//! the fallback glyph.

use crate::color::ColorCode;
use crate::grid::{put, scroll_up};
use crate::writer::{
    blank_cell, blank_row, classify_byte, classify_bytes, is_printable, wr_byte, wr_bytes,
    ScreenChar, WriterView, BUFFER_HEIGHT, BUFFER_WIDTH, FALLBACK_GLYPH, NEWLINE,
};
use vstd::prelude::*;

verus! {

/// A full-width row showing the given bytes from column 0, the rest blanks.
pub open spec fn row_of_bytes(bs: Seq<u8>, color: ColorCode) -> Seq<ScreenChar> {
    Seq::new(
        BUFFER_WIDTH as nat,
        |j: int|
            if 0 <= j < bs.len() {
                ScreenChar { ascii_character: bs[j], color_code: color }
            } else {
                blank_cell(color)
            },
    )
}

/// Writing a printable byte places exactly that byte, in the writer's
/// current color, at the bottom row under the pre-write cursor column;
/// every other cell keeps its contents, and the column advances by
/// exactly one.
pub proof fn lemma_write_printable(v: WriterView, b: u8)
    requires
        v.wf(),
        is_printable(b),
        v.col < BUFFER_WIDTH,
    ensures
        wr_byte(v, b).grid[BUFFER_HEIGHT - 1][v.col as int] == (ScreenChar {
            ascii_character: b,
            color_code: v.color,
        }),
        wr_byte(v, b).col == v.col + 1,
        wr_byte(v, b).color == v.color,
        forall|r: int, c: int|
            0 <= r < BUFFER_HEIGHT && 0 <= c < BUFFER_WIDTH && !(r == BUFFER_HEIGHT - 1 && c
                == v.col) ==> wr_byte(v, b).grid[r][c] == v.grid[r][c],
{
}

/// Rendering a concatenation renders the first part, then the second.
proof fn lemma_wr_bytes_append(v: WriterView, a: Seq<u8>, b: Seq<u8>)
    ensures
        wr_bytes(v, a + b) == wr_bytes(wr_bytes(v, a), b),
    decreases a.len(),
{
    if a.len() == 0 {
        assert(a + b =~= b);
        assert(wr_bytes(v, a) == v);
    } else {
        assert((a + b)[0] == a[0]);
        assert((a + b).drop_first() =~= a.drop_first() + b);
        lemma_wr_bytes_append(wr_byte(v, a[0]), a.drop_first(), b);
        assert(wr_bytes(v, a + b) == wr_bytes(wr_byte(v, a[0]), a.drop_first() + b));
    }
}

/// Writing non-newline bytes that fit on the current line fills the bottom
/// row cell by cell from the cursor column on, touches nothing else, and
/// moves the column past the written bytes.
proof fn lemma_fill_line(v: WriterView, bs: Seq<u8>)
    requires
        v.wf(),
        v.col + bs.len() <= BUFFER_WIDTH,
        forall|i: int| 0 <= i < bs.len() ==> (#[trigger] bs[i]) != NEWLINE,
    ensures
        ({
            let r = wr_bytes(v, bs);
            &&& r.wf()
            &&& r.color == v.color
            &&& r.col == v.col + bs.len()
            &&& forall|k: int| 0 <= k < BUFFER_HEIGHT - 1 ==> #[trigger] r.grid[k] == v.grid[k]
            &&& forall|j: int|
                0 <= j < BUFFER_WIDTH ==> #[trigger] r.grid[BUFFER_HEIGHT - 1][j] == (if v.col <= j
                    < v.col + bs.len() {
                    ScreenChar { ascii_character: bs[j - v.col], color_code: v.color }
                } else {
                    v.grid[BUFFER_HEIGHT - 1][j]
                })
        }),
    decreases bs.len(),
{
    crate::writer::lemma_wr_bytes_wf(v, bs);
    if bs.len() > 0 {
        let v1 = wr_byte(v, bs[0]);
        crate::writer::lemma_wr_byte_wf(v, bs[0]);
        lemma_fill_line(v1, bs.drop_first());
        assert(wr_bytes(v, bs) == wr_bytes(v1, bs.drop_first()));
        let r = wr_bytes(v, bs);
        assert forall|j: int| 0 <= j < BUFFER_WIDTH implies #[trigger] r.grid[BUFFER_HEIGHT - 1][j]
            == (if v.col <= j < v.col + bs.len() {
            ScreenChar { ascii_character: bs[j - v.col], color_code: v.color }
        } else {
            v.grid[BUFFER_HEIGHT - 1][j]
        }) by {
            if v.col + 1 <= j < v.col + bs.len() {
                assert(bs.drop_first()[j - v.col - 1] == bs[j - v.col]);
            }
        }
    }
}

/// Writing one full line of printable bytes from column 0 leaves the cursor
/// at column `BUFFER_WIDTH`; the next printable byte then triggers exactly
/// one wrap-scroll before being placed at column 0 of the new bottom row.
pub proof fn lemma_line_fill_and_wrap(v: WriterView, bs: Seq<u8>, b: u8)
    requires
        v.wf(),
        v.col == 0,
        bs.len() == BUFFER_WIDTH,
        forall|i: int| 0 <= i < bs.len() ==> is_printable(#[trigger] bs[i]),
        is_printable(b),
    ensures
        wr_bytes(v, bs).col == BUFFER_WIDTH,
        wr_bytes(v, bs.push(b)).grid == put(
            scroll_up(wr_bytes(v, bs).grid, blank_row(v.color)),
            BUFFER_HEIGHT - 1,
            0,
            ScreenChar { ascii_character: b, color_code: v.color },
        ),
        wr_bytes(v, bs.push(b)).col == 1,
{
    lemma_fill_line(v, bs);
    crate::writer::lemma_wr_bytes_snoc(v, bs, b);
}

/// Writing `n` full lines of non-newline bytes from column 0: the bottom
/// `n` rows show the input line by line, the rows above hold what survives
/// of the original grid, and the cursor rests at the end of the last line.
proof fn lemma_fill_lines(v: WriterView, bs: Seq<u8>, n: int)
    requires
        v.wf(),
        v.col == 0,
        1 <= n <= BUFFER_HEIGHT,
        bs.len() == n * BUFFER_WIDTH,
        forall|i: int| 0 <= i < bs.len() ==> (#[trigger] bs[i]) != NEWLINE,
    ensures
        ({
            let r = wr_bytes(v, bs);
            &&& r.wf()
            &&& r.color == v.color
            &&& r.col == BUFFER_WIDTH
            &&& forall|k: int| 0 <= k < BUFFER_HEIGHT - n ==> r.grid[k] == v.grid[k + n - 1]
            &&& forall|k: int|
                BUFFER_HEIGHT - n <= k < BUFFER_HEIGHT ==> r.grid[k] == row_of_bytes(
                    bs.subrange(
                        (k - (BUFFER_HEIGHT - n)) * BUFFER_WIDTH,
                        (k - (BUFFER_HEIGHT - n) + 1) * BUFFER_WIDTH,
                    ),
                    v.color,
                )
        }),
    decreases n,
{
    crate::writer::lemma_wr_bytes_wf(v, bs);
    let r = wr_bytes(v, bs);
    if n == 1 {
        lemma_fill_line(v, bs);
        assert(r.grid[BUFFER_HEIGHT - 1] =~= row_of_bytes(
            bs.subrange(0, BUFFER_WIDTH as int),
            v.color,
        ));
    } else {
        let a = bs.subrange(0, (n - 1) * BUFFER_WIDTH);
        let g = bs.subrange((n - 1) * BUFFER_WIDTH, n * BUFFER_WIDTH);
        assert(bs =~= a + g);
        lemma_fill_lines(v, a, n - 1);
        lemma_wr_bytes_append(v, a, g);
        let r1 = wr_bytes(v, a);
        // The first byte of the next line wraps: one scroll, then column 0.
        let v2 = wr_byte(r1, g[0]);
        assert(g[0] == bs[(n - 1) * BUFFER_WIDTH]);
        assert(v2.grid == put(
            scroll_up(r1.grid, blank_row(v.color)),
            BUFFER_HEIGHT - 1,
            0,
            ScreenChar { ascii_character: g[0], color_code: v.color },
        ));
        crate::writer::lemma_wr_byte_wf(r1, g[0]);
        lemma_fill_line(v2, g.drop_first());
        assert(wr_bytes(r1, g) == wr_bytes(v2, g.drop_first()));
        // Rows above the bottom: shifted up once more.
        assert forall|k: int| 0 <= k < BUFFER_HEIGHT - n implies r.grid[k] == v.grid[k + n - 1] by {
            assert(r.grid[k] == v2.grid[k]);
            assert(v2.grid[k] == r1.grid[k + 1]);
        }
        assert forall|k: int| BUFFER_HEIGHT - n <= k < BUFFER_HEIGHT implies r.grid[k]
            == row_of_bytes(
            bs.subrange(
                (k - (BUFFER_HEIGHT - n)) * BUFFER_WIDTH,
                (k - (BUFFER_HEIGHT - n) + 1) * BUFFER_WIDTH,
            ),
            v.color,
        ) by {
            let m = k - (BUFFER_HEIGHT - n);
            let part = bs.subrange(m * BUFFER_WIDTH, (m + 1) * BUFFER_WIDTH);
            if k < BUFFER_HEIGHT - 1 {
                // An already-filled line, shifted up by the wrap-scroll.
                assert(r.grid[k] == v2.grid[k]);
                assert(v2.grid[k] == r1.grid[k + 1]);
                assert(a.subrange(m * BUFFER_WIDTH, (m + 1) * BUFFER_WIDTH) =~= part);
                assert(r1.grid[k + 1] == row_of_bytes(part, v.color));
            } else {
                // The bottom row: the freshly written last line.
                assert(g =~= part);
                assert(r.grid[BUFFER_HEIGHT - 1] =~= row_of_bytes(g, v.color));
            }
        }
    }
}

/// Filling the grid exactly once with printable bytes and writing one more:
/// every row of the original grid is evicted — each remaining row shows
/// later input only — and the bottom row holds exactly the final overflow
/// byte followed by blanks, with the cursor at column 1.
pub proof fn lemma_grid_overflow(v: WriterView, bs: Seq<u8>)
    requires
        v.wf(),
        v.col == 0,
        bs.len() == BUFFER_HEIGHT * BUFFER_WIDTH + 1,
        forall|i: int| 0 <= i < bs.len() ==> is_printable(#[trigger] bs[i]),
    ensures
        ({
            let r = wr_bytes(v, bs);
            &&& r.col == 1
            &&& r.color == v.color
            &&& forall|k: int|
                0 <= k < BUFFER_HEIGHT - 1 ==> r.grid[k] == row_of_bytes(
                    bs.subrange((k + 1) * BUFFER_WIDTH, (k + 2) * BUFFER_WIDTH),
                    v.color,
                )
            &&& r.grid[BUFFER_HEIGHT - 1] == row_of_bytes(
                bs.subrange(bs.len() - 1, bs.len() as int),
                v.color,
            )
        }),
{
    let hw = (BUFFER_HEIGHT * BUFFER_WIDTH) as int;
    let a = bs.subrange(0, hw);
    let b = bs[hw];
    assert(bs =~= a.push(b));
    lemma_fill_lines(v, a, BUFFER_HEIGHT as int);
    crate::writer::lemma_wr_bytes_snoc(v, a, b);
    let w = wr_bytes(v, a);
    let r = wr_bytes(v, bs);
    assert(r == wr_byte(w, b));
    assert forall|k: int| 0 <= k < BUFFER_HEIGHT - 1 implies r.grid[k] == row_of_bytes(
        bs.subrange((k + 1) * BUFFER_WIDTH, (k + 2) * BUFFER_WIDTH),
        v.color,
    ) by {
        assert(r.grid[k] == w.grid[k + 1]);
        assert(a.subrange((k + 1) * BUFFER_WIDTH, (k + 2) * BUFFER_WIDTH) =~= bs.subrange(
            (k + 1) * BUFFER_WIDTH,
            (k + 2) * BUFFER_WIDTH,
        ));
    }
    assert(r.grid[BUFFER_HEIGHT - 1] =~= row_of_bytes(
        bs.subrange(bs.len() - 1, bs.len() as int),
        v.color,
    ));
}

/// Byte classification preserves the byte count one-to-one, passes
/// printable bytes and newlines through unchanged, and substitutes the
/// fallback glyph — never a newline — for every other byte, at the position
/// the original byte occupied.
pub proof fn lemma_classification(bs: Seq<u8>)
    ensures
        classify_bytes(bs).len() == bs.len(),
        forall|i: int|
            0 <= i < bs.len() && (is_printable(#[trigger] bs[i]) || bs[i] == NEWLINE)
                ==> classify_bytes(bs)[i] == bs[i],
        forall|i: int|
            0 <= i < bs.len() && !is_printable(#[trigger] bs[i]) && bs[i] != NEWLINE
                ==> classify_bytes(bs)[i] == FALLBACK_GLYPH,
        forall|i: int|
            0 <= i < bs.len() ==> ((#[trigger] classify_bytes(bs)[i]) == NEWLINE <==> bs[i]
                == NEWLINE),
{
    assert forall|i: int| 0 <= i < bs.len() implies #[trigger] classify_bytes(bs)[i]
        == classify_byte(bs[i]) by {}
}

} // verus!
