//! The mathematical model of the grid: row-major indexing, the toroidal
//! neighbor count, the generation rule, pattern stamping and rendering,
//! together with the laws the engine guarantees about them.
use vstd::prelude::*;
use vstd::arithmetic::div_mod::lemma_fundamental_div_mod;
use vstd::arithmetic::div_mod::lemma_fundamental_div_mod_converse;
use vstd::arithmetic::div_mod::lemma_mod_pos_bound;
use vstd::arithmetic::div_mod::lemma_mod_self_0;
use vstd::arithmetic::mul::lemma_mul_inequality;

verus! {

/// The linear, row-major index of the cell at `(row, col)` on a grid
/// that is `w` columns wide.
pub open spec fn cell_index(w: int, row: int, col: int) -> int {
    row * w + col
}

/// The contribution (0 or 1) of the neighbor reached from `(row, col)` by
/// the unsigned offsets `(dr, dc)`, each taken modulo the grid dimensions;
/// an offset of `h - 1` (resp. `w - 1`) stands for a step of minus one.
pub open spec fn neighbor_contrib(
    cells: Seq<bool>,
    w: int,
    h: int,
    row: int,
    col: int,
    dr: int,
    dc: int,
) -> int {
    if cells[cell_index(w, (row + dr) % h, (col + dc) % w)] {
        1int
    } else {
        0int
    }
}

/// The toroidal live-neighbor count of the cell at `(row, col)`: the sum of
/// the eight offset combinations drawn from rows `{h - 1, 0, 1}` and columns
/// `{w - 1, 0, 1}`, leaving out the `(0, 0)` offset (the cell itself).
pub open spec fn live_neighbors(cells: Seq<bool>, w: int, h: int, row: int, col: int) -> int {
    neighbor_contrib(cells, w, h, row, col, h - 1, w - 1)
        + neighbor_contrib(cells, w, h, row, col, h - 1, 0)
        + neighbor_contrib(cells, w, h, row, col, h - 1, 1)
        + neighbor_contrib(cells, w, h, row, col, 0, w - 1)
        + neighbor_contrib(cells, w, h, row, col, 0, 1)
        + neighbor_contrib(cells, w, h, row, col, 1, w - 1)
        + neighbor_contrib(cells, w, h, row, col, 1, 0)
        + neighbor_contrib(cells, w, h, row, col, 1, 1)
}

/// The birth/survival rule: a live cell stays alive with 2 or 3 live
/// neighbors, a dead cell is born with exactly 3, everything else is dead.
pub open spec fn next_cell(cells: Seq<bool>, w: int, h: int, row: int, col: int) -> bool {
    let n = live_neighbors(cells, w, h, row, col);
    if cells[cell_index(w, row, col)] {
        n == 2 || n == 3
    } else {
        n == 3
    }
}

/// One full generation step: every cell of the result is the rule applied
/// to the corresponding cell of the snapshot `cells`.
pub open spec fn next_gen(cells: Seq<bool>, w: int, h: int) -> Seq<bool> {
    Seq::new(cells.len(), |i: int| next_cell(cells, w, h, i / w, i % w))
}

/// Whether linear index `i` is covered by one of the `(row, col)` points.
pub open spec fn covers(w: int, pts: Seq<(int, int)>, i: int) -> bool {
    exists|k: int| 0 <= k < pts.len() && cell_index(w, (#[trigger] pts[k]).0, pts[k].1) == i
}

/// The grid after marking every listed `(row, col)` point alive: covered
/// cells become alive, every other cell keeps its state.
pub open spec fn stamp(cells: Seq<bool>, w: int, pts: Seq<(int, int)>) -> Seq<bool> {
    Seq::new(cells.len(), |i: int| cells[i] || covers(w, pts, i))
}

/// The coordinate pairs of a slice of `(u32, u32)` points, as integers.
pub open spec fn points_view(pts: Seq<(u32, u32)>) -> Seq<(int, int)> {
    pts.map_values(|p: (u32, u32)| (p.0 as int, p.1 as int))
}

/// The five relative offsets of the glider, inside a 3-by-3 bounding box.
pub open spec fn glider_offsets() -> Seq<(int, int)> {
    seq![(0, 1), (1, 2), (2, 0), (2, 1), (2, 2)]
}

/// The 48 relative offsets of the pulsar, inside a 13-by-13 bounding box.
pub open spec fn pulsar_offsets() -> Seq<(int, int)> {
    seq![
        (0, 2), (0, 3), (0, 4), (0, 8), (0, 9), (0, 10),
        (2, 0), (2, 5), (2, 7), (2, 12),
        (3, 0), (3, 5), (3, 7), (3, 12),
        (4, 0), (4, 5), (4, 7), (4, 12),
        (5, 2), (5, 3), (5, 4), (5, 8), (5, 9), (5, 10),
        (7, 2), (7, 3), (7, 4), (7, 8), (7, 9), (7, 10),
        (8, 0), (8, 5), (8, 7), (8, 12),
        (9, 0), (9, 5), (9, 7), (9, 12),
        (10, 0), (10, 5), (10, 7), (10, 12),
        (12, 2), (12, 3), (12, 4), (12, 8), (12, 9), (12, 10),
    ]
}

/// Each relative offset translated by the shape's top-left corner, with
/// per-axis toroidal wraparound.
pub open spec fn translate_points(
    offsets: Seq<(int, int)>,
    w: int,
    h: int,
    top: int,
    left: int,
) -> Seq<(int, int)> {
    offsets.map_values(|p: (int, int)| ((top + p.0) % h, (left + p.1) % w))
}

/// The absolute cells of a glider anchored at `(row, col)`: the corner is
/// one step up and one step left of the anchor, with wraparound.
pub open spec fn glider_points(w: int, h: int, row: int, col: int) -> Seq<(int, int)> {
    translate_points(glider_offsets(), w, h, (row - 1) % h, (col - 1) % w)
}

/// The absolute cells of a pulsar anchored at `(row, col)`: the corner is
/// six steps up and six steps left of the anchor, with wraparound.
pub open spec fn pulsar_points(w: int, h: int, row: int, col: int) -> Seq<(int, int)> {
    translate_points(pulsar_offsets(), w, h, (row - 6) % h, (col - 6) % w)
}

/// The fixed striped seeding pattern: linear index `i` holds a live cell
/// exactly when `i` is divisible by 2 or by 7.
pub open spec fn fixed_pattern(i: int) -> bool {
    i % 2 == 0 || i % 7 == 0
}

/// The fixed glyph of one cell: a filled square when alive, an open one
/// when dead.
pub open spec fn glyph(alive: bool) -> char {
    if alive {
        '\u{25fc}'
    } else {
        '\u{25fb}'
    }
}

/// The rendered text of the grid: rows in order, each row its `w` cell
/// glyphs left to right followed by one line break.
pub open spec fn render_spec(cells: Seq<bool>, w: int, h: int) -> Seq<char> {
    Seq::new(
        (h * (w + 1)) as nat,
        |i: int|
            if i % (w + 1) == w {
                '\n'
            } else {
                glyph(cells[cell_index(w, i / (w + 1), i % (w + 1))])
            },
    )
}

/// A row-major index lies inside the grid.
pub proof fn lemma_index_bounds(w: int, h: int, row: int, col: int)
    by (nonlinear_arith)
    requires
        0 <= row < h,
        0 <= col < w,
    ensures
        0 <= cell_index(w, row, col) < w * h,
{
}

/// A row-major index decomposes uniquely into its row and column.
pub proof fn lemma_index_decompose(d: int, q: int, r: int)
    requires
        0 < d,
        0 <= q,
        0 <= r < d,
    ensures
        (q * d + r) / d == q,
        (q * d + r) % d == r,
{
    lemma_fundamental_div_mod_converse(q * d + r, d, q, r);
}

/// Row-major indexing is a bijection between `[0, h) x [0, w)` and
/// `[0, w * h)`: dividing a linear index by the width recovers the row
/// and column it came from.
pub proof fn lemma_index_bijection(w: int, h: int, i: int)
    requires
        0 < w,
        0 < h,
        0 <= i < w * h,
    ensures
        0 <= i / w < h,
        0 <= i % w < w,
        cell_index(w, i / w, i % w) == i,
{
    lemma_fundamental_div_mod(i, w);
    lemma_mod_pos_bound(i, w);
    assert(w * (i / w) == (i / w) * w) by (nonlinear_arith);
    if i / w < 0 {
        lemma_mul_inequality(i / w, -1, w);
        assert(false);
    }
    if i / w >= h {
        lemma_mul_inequality(h, i / w, w);
        assert(w * h == h * w) by (nonlinear_arith);
        assert(false);
    }
}

/// Neighbor-count range: on every grid, the toroidal live-neighbor count of
/// every cell lies between 0 and 8; each of the eight examined cells adds
/// either 0 or 1.
pub proof fn lemma_live_neighbors_range(cells: Seq<bool>, w: int, h: int, row: int, col: int)
    ensures
        0 <= live_neighbors(cells, w, h, row, col) <= 8,
{
}

/// Toroidal wrap: when the cell at `(0, 0)` is alive, the cell at the
/// opposite corner `(h - 1, w - 1)` counts it among its neighbors, so its
/// live-neighbor count is at least 1.
pub proof fn lemma_toroidal_wrap(cells: Seq<bool>, w: int, h: int)
    requires
        0 < w,
        0 < h,
        cells.len() == w * h,
        cells[0],
    ensures
        live_neighbors(cells, w, h, h - 1, w - 1) >= 1,
{
    lemma_mod_self_0(h);
    lemma_mod_self_0(w);
    let r0 = ((h - 1) + 1) % h;
    let c0 = ((w - 1) + 1) % w;
    assert(r0 == 0 && c0 == 0);
    assert(cell_index(w, r0, c0) == 0) by (nonlinear_arith)
        requires
            r0 == 0,
            c0 == 0,
    ;
    assert(neighbor_contrib(cells, w, h, h - 1, w - 1, 1, 1) == 1);
}

/// Idempotent stamping: marking the same points alive twice leaves exactly
/// the cells that one stamping leaves.
pub proof fn lemma_stamp_idempotent(cells: Seq<bool>, w: int, pts: Seq<(int, int)>)
    ensures
        stamp(stamp(cells, w, pts), w, pts) == stamp(cells, w, pts),
{
    let once = stamp(cells, w, pts);
    let twice = stamp(once, w, pts);
    assert forall|i: int| 0 <= i < twice.len() implies twice[i] == once[i] by {
        assert(once[i] == (cells[i] || covers(w, pts, i)));
    }
    assert(twice =~= once);
}

/// Render ordering: in the rendered text, row `row` occupies the characters
/// at positions `row * (w + 1)` through `row * (w + 1) + w`; the first `w`
/// of them are the glyphs of that row's cells in column order, and the last
/// is a line break.
pub proof fn lemma_render_ordering(cells: Seq<bool>, w: int, h: int, row: int, col: int)
    requires
        0 < w,
        0 < h,
        0 <= row < h,
        0 <= col < w,
    ensures
        render_spec(cells, w, h).len() == h * (w + 1),
        render_spec(cells, w, h)[row * (w + 1) + col] == glyph(cells[cell_index(w, row, col)]),
        render_spec(cells, w, h)[row * (w + 1) + w] == '\n',
{
    lemma_index_bounds(w + 1, h, row, col);
    lemma_index_decompose(w + 1, row, col);
    assert(w * h == h * w) by (nonlinear_arith);
    assert((w + 1) * h == h * (w + 1)) by (nonlinear_arith);
    assert(row * (w + 1) + w < h * (w + 1)) by {
        lemma_index_bounds(w + 1, h, row, w);
    }
    lemma_index_decompose(w + 1, row, w);
}

} // verus!
