//! The grid model shared by both backends: rows of cells, and the scroll
//! step that shifts every row up by one and exposes a fresh bottom row.

use vstd::prelude::*;

verus! {

/// The grid after scrolling up by one row: row `r` takes the contents of
/// row `r + 1`, and the bottom row becomes `bottom`. The contents of the
/// former top row are discarded.
pub open spec fn scroll_up<T>(g: Seq<Seq<T>>, bottom: Seq<T>) -> Seq<Seq<T>> {
    Seq::new(g.len(), |r: int| if r + 1 < g.len() { g[r + 1] } else { bottom })
}

/// A row of width `w` in which every cell holds `fill`.
pub open spec fn uniform_row<T>(w: nat, fill: T) -> Seq<T> {
    Seq::new(w, |c: int| fill)
}

/// Every row of `g` is a `uniform_row(w, fill)`.
pub open spec fn is_uniform_grid<T>(g: Seq<Seq<T>>, w: nat, fill: T) -> bool {
    forall|r: int| 0 <= r < g.len() ==> g[r] == uniform_row(w, fill)
}

/// Scrolling is idempotent in content-shape: scrolling a grid in which every
/// cell is blank, with a blank bottom row, yields the very same all-blank grid.
pub proof fn lemma_scroll_blank_grid<T>(g: Seq<Seq<T>>, w: nat, fill: T)
    requires
        is_uniform_grid(g, w, fill),
    ensures
        is_uniform_grid(scroll_up(g, uniform_row(w, fill)), w, fill),
        scroll_up(g, uniform_row(w, fill)) == g,
{
    assert(scroll_up(g, uniform_row(w, fill)) =~= g);
}

/// The grid with the cell at row `r`, column `c` replaced by `x`; every
/// other cell is left in place.
pub open spec fn put<T>(g: Seq<Seq<T>>, r: int, c: int, x: T) -> Seq<Seq<T>> {
    g.update(r, g[r].update(c, x))
}

} // verus!
