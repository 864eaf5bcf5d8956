//! The engine itself: a toroidal Conway grid that owns its bit-packed
//! cells and advances them one generation at a time.
use vstd::prelude::*;
use fixedbitset::FixedBitSet;
use crate::GridError;
use crate::bits::bits_get;
use crate::bits::bits_new;
use crate::bits::bits_of;
use crate::bits::bits_set;
use crate::bits::bits_toggle;
use crate::model::cell_index;
use crate::model::covers;
use crate::model::fixed_pattern;
use crate::model::glider_points;
use crate::model::lemma_index_bijection;
use crate::model::lemma_index_bounds;
use crate::model::lemma_index_decompose;
use crate::model::lemma_render_ordering;
use crate::model::live_neighbors;
use crate::model::neighbor_contrib;
use crate::model::next_cell;
use crate::model::next_gen;
use crate::model::points_view;
use crate::model::pulsar_points;
use crate::model::render_spec;
use crate::model::stamp;
use vstd::arithmetic::div_mod::lemma_mod_multiples_vanish;

verus! {

/// A toroidal Game of Life grid: `width` columns by `height` rows of
/// boolean cells, packed one bit each in row-major order.
pub struct Universe {
    width: u32,
    height: u32,
    cells: FixedBitSet,
}

/// Relies on String::push: appends the given character to the end of the
/// string.
#[verifier::external_body]
fn push_char(s: &mut String, c: char)
    ensures
        final(s)@ == old(s)@.push(c),
{
    s.push(c);
}

impl Universe {
    /// The number of columns.
    pub closed spec fn spec_width(&self) -> u32 {
        self.width
    }

    /// The number of rows.
    pub closed spec fn spec_height(&self) -> u32 {
        self.height
    }

    /// The cell states, in row-major order.
    pub closed spec fn spec_cells(&self) -> Seq<bool> {
        bits_of(self.cells)
    }

    /// The number of cells the dimensions call for.
    pub open spec fn spec_size(&self) -> int {
        self.spec_width() * self.spec_height()
    }

    /// The grid invariant: both dimensions are at least 1, the cell storage
    /// holds exactly `width * height` bits, and that count fits a `usize`.
    pub open spec fn well_formed(&self) -> bool {
        &&& 1 <= self.spec_width()
        &&& 1 <= self.spec_height()
        &&& self.spec_cells().len() == self.spec_size()
        &&& self.spec_size() <= usize::MAX as int
    }

    /// The linear index of the cell at `(row, column)`; the caller must
    /// already have both coordinates in range.
    fn get_index(&self, row: u32, column: u32) -> (i: usize)
        requires
            self.well_formed(),
            row < self.spec_height(),
            column < self.spec_width(),
        ensures
            i == cell_index(self.spec_width() as int, row as int, column as int),
            i < self.spec_cells().len(),
    {
        proof {
            lemma_index_bounds(
                self.spec_width() as int,
                self.spec_height() as int,
                row as int,
                column as int,
            );
        }
        (row as usize) * (self.width as usize) + (column as usize)
    }

    /// Initializes the default 64-by-64 grid with the fixed striped
    /// pattern: cell `i` is alive exactly when `i` is divisible by 2 or 7.
    #[verifier::loop_isolation(false)]
    pub fn new() -> (u: Universe)
        ensures
            u.well_formed(),
            u.spec_width() == 64,
            u.spec_height() == 64,
            forall|i: int| 0 <= i < 64 * 64 ==> (#[trigger] u.spec_cells()[i]) == fixed_pattern(i),
    {
        let size: usize = 64 * 64;
        let mut cells = bits_new(size);
        let mut bit: usize = 0;
        while bit < size
            invariant
                bit <= size,
                size == 64 * 64,
                bits_of(cells).len() == size,
                forall|i: int| 0 <= i < bit ==> bits_of(cells)[i] == fixed_pattern(i),
            decreases size - bit,
        {
            let alive = bit % 2 == 0 || bit % 7 == 0;
            bits_set(&mut cells, bit, alive);
            bit = bit + 1;
        }
        Universe { width: 64, height: 64, cells }
    }

    /// Initializes a grid of the given size whose cells are the
    /// caller-supplied draws from its uniform random source, one per cell
    /// in row-major order. A zero width or height is rejected.
    #[verifier::loop_isolation(false)]
    pub fn new_random(width: u32, height: u32, draws: Vec<bool>) -> (r: Result<Universe, GridError>)
        requires
            draws@.len() == width * height,
            width * height <= usize::MAX as int,
        ensures
            r is Ok <==> (1 <= width && 1 <= height),
            r matches Ok(u) ==> u.well_formed() && u.spec_width() == width && u.spec_height()
                == height && u.spec_cells() == draws@,
            r is Err ==> r == Err::<Universe, GridError>(GridError::ZeroDimension),
    {
        if width == 0 || height == 0 {
            return Err(GridError::ZeroDimension);
        }
        let size: usize = (width as usize) * (height as usize);
        let mut cells = bits_new(size);
        let mut bit: usize = 0;
        while bit < size
            invariant
                bit <= size,
                size == width * height,
                draws@.len() == size,
                bits_of(cells).len() == size,
                forall|i: int| 0 <= i < bit ==> bits_of(cells)[i] == draws@[i],
            decreases size - bit,
        {
            let alive = draws[bit];
            bits_set(&mut cells, bit, alive);
            bit = bit + 1;
        }
        proof {
            assert(bits_of(cells) =~= draws@);
        }
        Ok(Universe { width, height, cells })
    }

    /// Initializes the default 64-by-64 grid with every cell dead.
    pub fn empty() -> (u: Universe)
        ensures
            u.well_formed(),
            u.spec_width() == 64,
            u.spec_height() == 64,
            forall|i: int| 0 <= i < 64 * 64 ==> !(#[trigger] u.spec_cells()[i]),
    {
        let size: usize = 64 * 64;
        let cells = bits_new(size);
        Universe { width: 64, height: 64, cells }
    }

    /// The number of columns.
    pub fn width(&self) -> (w: u32)
        ensures
            w == self.spec_width(),
    {
        self.width
    }

    /// The number of rows.
    pub fn height(&self) -> (h: u32)
        ensures
            h == self.spec_height(),
    {
        self.height
    }

    /// A read-only view of the packed bit array.
    pub fn get_cells(&self) -> (r: &FixedBitSet)
        ensures
            bits_of(*r) == self.spec_cells(),
    {
        &self.cells
    }

    /// Resizes to the given width, keeping the height, and clears every
    /// cell to dead. A zero width is rejected and leaves the grid as it
    /// was.
    pub fn set_width(&mut self, width: u32) -> (r: Result<(), GridError>)
        requires
            old(self).well_formed(),
            width * old(self).spec_height() <= usize::MAX as int,
        ensures
            final(self).well_formed(),
            final(self).spec_height() == old(self).spec_height(),
            r is Ok <==> 1 <= width,
            r is Ok ==> final(self).spec_width() == width,
            r is Ok ==> forall|i: int|
                0 <= i < final(self).spec_cells().len()
                    ==> !(#[trigger] final(self).spec_cells()[i]),
            r is Err ==> *final(self) == *old(self) && r == Err::<(), GridError>(
                GridError::ZeroDimension,
            ),
    {
        if width == 0 {
            return Err(GridError::ZeroDimension);
        }
        self.width = width;
        let size: usize = (width as usize) * (self.height as usize);
        self.cells = bits_new(size);
        Ok(())
    }

    /// Resizes to the given height, keeping the width, and clears every
    /// cell to dead. A zero height is rejected and leaves the grid as it
    /// was.
    pub fn set_height(&mut self, height: u32) -> (r: Result<(), GridError>)
        requires
            old(self).well_formed(),
            old(self).spec_width() * height <= usize::MAX as int,
        ensures
            final(self).well_formed(),
            final(self).spec_width() == old(self).spec_width(),
            r is Ok <==> 1 <= height,
            r is Ok ==> final(self).spec_height() == height,
            r is Ok ==> forall|i: int|
                0 <= i < final(self).spec_cells().len()
                    ==> !(#[trigger] final(self).spec_cells()[i]),
            r is Err ==> *final(self) == *old(self) && r == Err::<(), GridError>(
                GridError::ZeroDimension,
            ),
    {
        if height == 0 {
            return Err(GridError::ZeroDimension);
        }
        self.height = height;
        let size: usize = (self.width as usize) * (height as usize);
        self.cells = bits_new(size);
        Ok(())
    }

    /// Flips the cell at `(row, column)`; the caller must have both
    /// coordinates in range.
    pub fn toggle_cell(&mut self, row: u32, column: u32)
        requires
            old(self).well_formed(),
            row < old(self).spec_height(),
            column < old(self).spec_width(),
        ensures
            final(self).well_formed(),
            final(self).spec_width() == old(self).spec_width(),
            final(self).spec_height() == old(self).spec_height(),
            final(self).spec_cells() == old(self).spec_cells().update(
                cell_index(old(self).spec_width() as int, row as int, column as int),
                !old(self).spec_cells()[cell_index(
                    old(self).spec_width() as int,
                    row as int,
                    column as int,
                )],
            ),
    {
        let idx: usize = self.get_index(row, column);
        bits_toggle(&mut self.cells, idx);
    }

    /// Marks every listed `(row, column)` cell alive, in order, leaving all
    /// other cells unchanged; the caller must have every pair in range.
    #[verifier::loop_isolation(false)]
    pub fn set_cells(&mut self, cells: &[(u32, u32)])
        requires
            old(self).well_formed(),
            forall|k: int|
                0 <= k < cells@.len() ==> (#[trigger] cells@[k]).0 < old(self).spec_height()
                    && cells@[k].1 < old(self).spec_width(),
        ensures
            final(self).well_formed(),
            final(self).spec_width() == old(self).spec_width(),
            final(self).spec_height() == old(self).spec_height(),
            final(self).spec_cells() == stamp(
                old(self).spec_cells(),
                old(self).spec_width() as int,
                points_view(cells@),
            ),
    {
        let ghost orig = old(self).spec_cells();
        let ghost w = old(self).spec_width() as int;
        let ghost pts = points_view(cells@);
        let mut k: usize = 0;
        while k < cells.len()
            invariant
                k <= cells@.len(),
                self.spec_width() == old(self).spec_width(),
                self.spec_height() == old(self).spec_height(),
                self.spec_cells().len() == orig.len(),
                forall|i: int|
                    0 <= i < orig.len() ==> self.spec_cells()[i] == (orig[i] || covers(
                        w,
                        pts.take(k as int),
                        i,
                    )),
            decreases cells@.len() - k,
        {
            let (row, column) = cells[k];
            let idx: usize = self.get_index(row, column);
            let ghost kk = k as int;
            let ghost done = pts.take(kk);
            let ghost before = self.spec_cells();
            bits_set(&mut self.cells, idx, true);
            k = k + 1;
            proof {
                assert(pts[kk] == (row as int, column as int));
                assert forall|i: int| 0 <= i < orig.len() implies self.spec_cells()[i] == (orig[i]
                    || covers(w, pts.take(k as int), i)) by {
                    let taken = pts.take(k as int);
                    assert(taken.len() == kk + 1);
                    assert(before[i] == (orig[i] || covers(w, done, i)));
                    if i == idx as int {
                        assert(taken[kk] == pts[kk]);
                        assert(cell_index(w, (taken[kk]).0, (taken[kk]).1) == i);
                        assert(covers(w, taken, i));
                        assert(self.spec_cells()[i]);
                    } else {
                        assert(self.spec_cells()[i] == before[i]);
                        if covers(w, taken, i) {
                            let j = choose|j: int|
                                0 <= j < taken.len() && cell_index(
                                    w,
                                    (#[trigger] taken[j]).0,
                                    taken[j].1,
                                ) == i;
                            assert(taken[j] == pts[j]);
                            assert(j != kk);
                            assert(done[j] == pts[j]);
                            assert(covers(w, done, i));
                        }
                        if covers(w, done, i) {
                            let j = choose|j: int|
                                0 <= j < done.len() && cell_index(
                                    w,
                                    (#[trigger] done[j]).0,
                                    done[j].1,
                                ) == i;
                            assert(taken[j] == done[j]);
                            assert(covers(w, taken, i));
                        }
                    }
                }
            }
        }
        proof {
            assert(pts.take(pts.len() as int) =~= pts);
            assert(self.spec_cells() =~= stamp(orig, w, pts));
        }
    }

    /// The contribution of one of the eight neighbors of `(row, column)`,
    /// reached by the unsigned offsets `(dr, dc)` with toroidal wraparound.
    fn neighbor_contribution(&self, row: u32, column: u32, dr: u32, dc: u32) -> (n: u8)
        requires
            self.well_formed(),
        ensures
            n as int == neighbor_contrib(
                self.spec_cells(),
                self.spec_width() as int,
                self.spec_height() as int,
                row as int,
                column as int,
                dr as int,
                dc as int,
            ),
            n <= 1,
    {
        let h64: u64 = self.height as u64;
        let w64: u64 = self.width as u64;
        let nr: u64 = ((row as u64) + (dr as u64)) % h64;
        let nc: u64 = ((column as u64) + (dc as u64)) % w64;
        proof {
            lemma_index_bounds(
                self.spec_width() as int,
                self.spec_height() as int,
                nr as int,
                nc as int,
            );
        }
        let idx = (nr as usize) * (self.width as usize) + (nc as usize);
        if bits_get(&self.cells, idx) {
            1
        } else {
            0
        }
    }

    /// The toroidal live-neighbor count of `(row, column)`: the eight
    /// offset combinations from rows `{height - 1, 0, 1}` and columns
    /// `{width - 1, 0, 1}`, leaving out the cell itself. The result always
    /// lies between 0 and 8.
    pub fn live_neighbor_count(&self, row: u32, column: u32) -> (n: u8)
        requires
            self.well_formed(),
        ensures
            n as int == live_neighbors(
                self.spec_cells(),
                self.spec_width() as int,
                self.spec_height() as int,
                row as int,
                column as int,
            ),
            n <= 8,
    {
        let up: u32 = self.height - 1;
        let left: u32 = self.width - 1;
        let mut n: u8 = self.neighbor_contribution(row, column, up, left);
        n = n + self.neighbor_contribution(row, column, up, 0);
        n = n + self.neighbor_contribution(row, column, up, 1);
        n = n + self.neighbor_contribution(row, column, 0, left);
        n = n + self.neighbor_contribution(row, column, 0, 1);
        n = n + self.neighbor_contribution(row, column, 1, left);
        n = n + self.neighbor_contribution(row, column, 1, 0);
        n = n + self.neighbor_contribution(row, column, 1, 1);
        n
    }

    /// Advances the grid one generation: every cell of the new grid is the
    /// birth/survival rule applied to the old grid, so no update observes
    /// another cell's new state.
    #[verifier::loop_isolation(false)]
    pub fn tick(&mut self)
        requires
            old(self).well_formed(),
        ensures
            final(self).well_formed(),
            final(self).spec_width() == old(self).spec_width(),
            final(self).spec_height() == old(self).spec_height(),
            final(self).spec_cells() == next_gen(
                old(self).spec_cells(),
                old(self).spec_width() as int,
                old(self).spec_height() as int,
            ),
    {
        let ghost prev = self.spec_cells();
        let ghost w = self.spec_width() as int;
        let ghost h = self.spec_height() as int;
        let size: usize = (self.width as usize) * (self.height as usize);
        let mut next = bits_new(size);
        let mut row: u32 = 0;
        while row < self.height
            invariant
                row <= self.height,
                *self == *old(self),
                bits_of(next).len() == w * h,
                forall|r: int, c: int|
                    0 <= r < row && 0 <= c < w ==> bits_of(next)[cell_index(w, r, c)] == next_cell(
                        prev,
                        w,
                        h,
                        r,
                        c,
                    ),
            decreases self.height - row,
        {
            let mut col: u32 = 0;
            while col < self.width
                invariant
                    row < self.height,
                    col <= self.width,
                    *self == *old(self),
                    bits_of(next).len() == w * h,
                    forall|r: int, c: int|
                        0 <= r < row && 0 <= c < w ==> bits_of(next)[cell_index(w, r, c)]
                            == next_cell(prev, w, h, r, c),
                    forall|c: int|
                        0 <= c < col ==> bits_of(next)[cell_index(w, row as int, c)] == next_cell(
                            prev,
                            w,
                            h,
                            row as int,
                            c,
                        ),
                decreases self.width - col,
            {
                let idx: usize = self.get_index(row, col);
                let alive = bits_get(&self.cells, idx);
                let ln: u8 = self.live_neighbor_count(row, col);
                let next_state = if alive {
                    ln == 2 || ln == 3
                } else {
                    ln == 3
                };
                bits_set(&mut next, idx, next_state);
                proof {
                    assert forall|r: int, c: int|
                        0 <= r <= row && 0 <= c < w && (r < row || c < col
                            + 1) implies bits_of(next)[cell_index(w, r, c)] == next_cell(
                        prev,
                        w,
                        h,
                        r,
                        c,
                    ) by {
                        lemma_index_bounds(w, h, r, c);
                        lemma_index_decompose(w, r, c);
                        lemma_index_decompose(w, row as int, col as int);
                    }
                }
                col = col + 1;
            }
            row = row + 1;
        }
        proof {
            assert forall|i: int| 0 <= i < prev.len() implies bits_of(next)[i] == next_cell(
                prev,
                w,
                h,
                i / w,
                i % w,
            ) by {
                lemma_index_bijection(w, h, i);
            }
            assert(bits_of(next) =~= next_gen(prev, w, h));
        }
        self.cells = next;
    }

    /// `(a - d) mod m` on unsigned values, for a small step `d` back.
    fn wrap_sub(a: u32, d: u32, m: u32) -> (r: u32)
        requires
            1 <= m,
            d <= 6,
        ensures
            r as int == ((a as int) - (d as int)) % (m as int),
            r < m,
    {
        let m64: u64 = m as u64;
        proof {
            assert((d as int) * (m as int) == (m as int) * (d as int) && (d as int) <= (d as int)
                * (m as int) <= 6 * (u32::MAX as int)) by (nonlinear_arith)
                requires
                    d <= 6,
                    1 <= m <= u32::MAX,
            ;
        }
        let r64: u64 = ((a as u64) + (d as u64) * m64 - (d as u64)) % m64;
        proof {
            lemma_mod_multiples_vanish(d as int, (a as int) - (d as int), m as int);
        }
        r64 as u32
    }

    /// `(a + d) mod m` on unsigned values.
    fn wrap_add(a: u32, d: u32, m: u32) -> (r: u32)
        requires
            1 <= m,
        ensures
            r as int == ((a as int) + (d as int)) % (m as int),
            r < m,
    {
        let m64: u64 = m as u64;
        let r64: u64 = ((a as u64) + (d as u64)) % m64;
        r64 as u32
    }

    /// Stamps a glider whose 3-by-3 bounding box has its top-left corner
    /// one step up and one step left of the anchor `(row, column)`, with
    /// toroidal wraparound; it only adds live cells.
    pub fn draw_glider(&mut self, row: u32, column: u32)
        requires
            old(self).well_formed(),
        ensures
            final(self).well_formed(),
            final(self).spec_width() == old(self).spec_width(),
            final(self).spec_height() == old(self).spec_height(),
            final(self).spec_cells() == stamp(
                old(self).spec_cells(),
                old(self).spec_width() as int,
                glider_points(
                    old(self).spec_width() as int,
                    old(self).spec_height() as int,
                    row as int,
                    column as int,
                ),
            ),
    {
        let h: u32 = self.height;
        let w: u32 = self.width;
        let top: u32 = Self::wrap_sub(row, 1, h);
        let left: u32 = Self::wrap_sub(column, 1, w);
        let mut pts: Vec<(u32, u32)> = Vec::new();
        pts.push((Self::wrap_add(top, 0, h), Self::wrap_add(left, 1, w)));
        pts.push((Self::wrap_add(top, 1, h), Self::wrap_add(left, 2, w)));
        pts.push((Self::wrap_add(top, 2, h), Self::wrap_add(left, 0, w)));
        pts.push((Self::wrap_add(top, 2, h), Self::wrap_add(left, 1, w)));
        pts.push((Self::wrap_add(top, 2, h), Self::wrap_add(left, 2, w)));
        proof {
            assert(points_view(pts@) =~= glider_points(
                w as int,
                h as int,
                row as int,
                column as int,
            ));
        }
        self.set_cells(pts.as_slice());
    }

    /// Stamps a pulsar whose 13-by-13 bounding box is centered on the
    /// anchor `(row, column)` — its top-left corner is six steps up and six
    /// steps left — with toroidal wraparound; it only adds live cells.
    #[verifier::rlimit(100)]
    pub fn draw_pulsar(&mut self, row: u32, column: u32)
        requires
            old(self).well_formed(),
        ensures
            final(self).well_formed(),
            final(self).spec_width() == old(self).spec_width(),
            final(self).spec_height() == old(self).spec_height(),
            final(self).spec_cells() == stamp(
                old(self).spec_cells(),
                old(self).spec_width() as int,
                pulsar_points(
                    old(self).spec_width() as int,
                    old(self).spec_height() as int,
                    row as int,
                    column as int,
                ),
            ),
    {
        let h: u32 = self.height;
        let w: u32 = self.width;
        let top: u32 = Self::wrap_sub(row, 6, h);
        let left: u32 = Self::wrap_sub(column, 6, w);
        let mut pts: Vec<(u32, u32)> = Vec::new();
        pts.push((Self::wrap_add(top, 0, h), Self::wrap_add(left, 2, w)));
        pts.push((Self::wrap_add(top, 0, h), Self::wrap_add(left, 3, w)));
        pts.push((Self::wrap_add(top, 0, h), Self::wrap_add(left, 4, w)));
        pts.push((Self::wrap_add(top, 0, h), Self::wrap_add(left, 8, w)));
        pts.push((Self::wrap_add(top, 0, h), Self::wrap_add(left, 9, w)));
        pts.push((Self::wrap_add(top, 0, h), Self::wrap_add(left, 10, w)));
        pts.push((Self::wrap_add(top, 2, h), Self::wrap_add(left, 0, w)));
        pts.push((Self::wrap_add(top, 2, h), Self::wrap_add(left, 5, w)));
        pts.push((Self::wrap_add(top, 2, h), Self::wrap_add(left, 7, w)));
        pts.push((Self::wrap_add(top, 2, h), Self::wrap_add(left, 12, w)));
        pts.push((Self::wrap_add(top, 3, h), Self::wrap_add(left, 0, w)));
        pts.push((Self::wrap_add(top, 3, h), Self::wrap_add(left, 5, w)));
        pts.push((Self::wrap_add(top, 3, h), Self::wrap_add(left, 7, w)));
        pts.push((Self::wrap_add(top, 3, h), Self::wrap_add(left, 12, w)));
        pts.push((Self::wrap_add(top, 4, h), Self::wrap_add(left, 0, w)));
        pts.push((Self::wrap_add(top, 4, h), Self::wrap_add(left, 5, w)));
        pts.push((Self::wrap_add(top, 4, h), Self::wrap_add(left, 7, w)));
        pts.push((Self::wrap_add(top, 4, h), Self::wrap_add(left, 12, w)));
        pts.push((Self::wrap_add(top, 5, h), Self::wrap_add(left, 2, w)));
        pts.push((Self::wrap_add(top, 5, h), Self::wrap_add(left, 3, w)));
        pts.push((Self::wrap_add(top, 5, h), Self::wrap_add(left, 4, w)));
        pts.push((Self::wrap_add(top, 5, h), Self::wrap_add(left, 8, w)));
        pts.push((Self::wrap_add(top, 5, h), Self::wrap_add(left, 9, w)));
        pts.push((Self::wrap_add(top, 5, h), Self::wrap_add(left, 10, w)));
        pts.push((Self::wrap_add(top, 7, h), Self::wrap_add(left, 2, w)));
        pts.push((Self::wrap_add(top, 7, h), Self::wrap_add(left, 3, w)));
        pts.push((Self::wrap_add(top, 7, h), Self::wrap_add(left, 4, w)));
        pts.push((Self::wrap_add(top, 7, h), Self::wrap_add(left, 8, w)));
        pts.push((Self::wrap_add(top, 7, h), Self::wrap_add(left, 9, w)));
        pts.push((Self::wrap_add(top, 7, h), Self::wrap_add(left, 10, w)));
        pts.push((Self::wrap_add(top, 8, h), Self::wrap_add(left, 0, w)));
        pts.push((Self::wrap_add(top, 8, h), Self::wrap_add(left, 5, w)));
        pts.push((Self::wrap_add(top, 8, h), Self::wrap_add(left, 7, w)));
        pts.push((Self::wrap_add(top, 8, h), Self::wrap_add(left, 12, w)));
        pts.push((Self::wrap_add(top, 9, h), Self::wrap_add(left, 0, w)));
        pts.push((Self::wrap_add(top, 9, h), Self::wrap_add(left, 5, w)));
        pts.push((Self::wrap_add(top, 9, h), Self::wrap_add(left, 7, w)));
        pts.push((Self::wrap_add(top, 9, h), Self::wrap_add(left, 12, w)));
        pts.push((Self::wrap_add(top, 10, h), Self::wrap_add(left, 0, w)));
        pts.push((Self::wrap_add(top, 10, h), Self::wrap_add(left, 5, w)));
        pts.push((Self::wrap_add(top, 10, h), Self::wrap_add(left, 7, w)));
        pts.push((Self::wrap_add(top, 10, h), Self::wrap_add(left, 12, w)));
        pts.push((Self::wrap_add(top, 12, h), Self::wrap_add(left, 2, w)));
        pts.push((Self::wrap_add(top, 12, h), Self::wrap_add(left, 3, w)));
        pts.push((Self::wrap_add(top, 12, h), Self::wrap_add(left, 4, w)));
        pts.push((Self::wrap_add(top, 12, h), Self::wrap_add(left, 8, w)));
        pts.push((Self::wrap_add(top, 12, h), Self::wrap_add(left, 9, w)));
        pts.push((Self::wrap_add(top, 12, h), Self::wrap_add(left, 10, w)));
        proof {
            assert(points_view(pts@) =~= pulsar_points(
                w as int,
                h as int,
                row as int,
                column as int,
            ));
        }
        self.set_cells(pts.as_slice());
    }

    /// Serializes the grid to text: rows top to bottom, each row its cell
    /// glyphs left to right — a filled square for a live cell, an open one
    /// for a dead cell — followed by one line break.
    #[verifier::loop_isolation(false)]
    pub fn render(&self) -> (text: String)
        requires
            self.well_formed(),
        ensures
            text@ == render_spec(
                self.spec_cells(),
                self.spec_width() as int,
                self.spec_height() as int,
            ),
    {
        let ghost cs = self.spec_cells();
        let ghost w = self.spec_width() as int;
        let ghost h = self.spec_height() as int;
        let ghost target = render_spec(cs, w, h);
        let mut text = String::new();
        let mut row: u32 = 0;
        while row < self.height
            invariant
                row <= self.height,
                text@.len() == row * (w + 1),
                forall|i: int| 0 <= i < text@.len() ==> text@[i] == target[i],
            decreases self.height - row,
        {
            let mut col: u32 = 0;
            while col < self.width
                invariant
                    row < self.height,
                    col <= self.width,
                    text@.len() == row * (w + 1) + col,
                    forall|i: int| 0 <= i < text@.len() ==> text@[i] == target[i],
                decreases self.width - col,
            {
                let idx: usize = self.get_index(row, col);
                let alive = bits_get(&self.cells, idx);
                let g = if alive {
                    '\u{25fc}'
                } else {
                    '\u{25fb}'
                };
                proof {
                    lemma_render_ordering(cs, w, h, row as int, col as int);
                }
                push_char(&mut text, g);
                col = col + 1;
            }
            proof {
                lemma_render_ordering(cs, w, h, row as int, 0);
                assert((row as int + 1) * (w + 1) == row * (w + 1) + w + 1) by (nonlinear_arith);
            }
            push_char(&mut text, '\n');
            row = row + 1;
        }
        proof {
            assert(text@ =~= target);
        }
        text
    }
}

/// Tick determinism: two grids with the same dimensions and the same cell
/// contents step to the same next generation, since `tick`'s contract pins
/// its result to `next_gen` of the starting state alone.
pub proof fn lemma_tick_deterministic(a: &Universe, b: &Universe)
    requires
        a.spec_width() == b.spec_width(),
        a.spec_height() == b.spec_height(),
        a.spec_cells() == b.spec_cells(),
    ensures
        next_gen(a.spec_cells(), a.spec_width() as int, a.spec_height() as int) == next_gen(
            b.spec_cells(),
            b.spec_width() as int,
            b.spec_height() as int,
        ),
{
}

} // verus!
