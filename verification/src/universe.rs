use vstd::prelude::*;

use crate::cell::Cell;
use crate::rules::{
    any_sustained, any_sustained_before, lemma_index_in_range, lemma_index_row_ordered,
    lemma_scan_complete, lemma_scan_extend, lemma_scan_row_wrap, live_neighbors, live_weight,
    neighbor, scanned_before, settle, spec_index, step, sustained,
};

verus! {

/// A toroidal grid of cells together with the two-phase update that advances
/// it one generation: `tick` settles transitions, `tock` applies the life
/// rule. The dimensions are fixed at construction; the buffer always holds
/// exactly one state per grid position, row-major.
pub struct Universe {
    width: u32,
    height: u32,
    cells: Vec<Cell>,
}

impl Universe {
    /// The fixed number of columns.
    pub closed spec fn spec_width(&self) -> u32 {
        self.width
    }

    /// The fixed number of rows.
    pub closed spec fn spec_height(&self) -> u32 {
        self.height
    }

    /// The grid contents, row-major.
    pub closed spec fn spec_cells(&self) -> Seq<Cell> {
        self.cells@
    }

    /// Well-formedness: both dimensions are positive, every row-major index
    /// fits in `u32`, and the buffer holds one state per grid position.
    pub open spec fn wf(&self) -> bool {
        &&& 1 <= self.spec_width()
        &&& 1 <= self.spec_height()
        &&& self.spec_width() * self.spec_height() <= u32::MAX
        &&& self.spec_cells().len() == self.spec_width() * self.spec_height()
    }

    /// Row-major position of `(row, column)` in the cell buffer.
    fn get_index(&self, row: u32, column: u32) -> (idx: usize)
        requires
            self.wf(),
            row < self.spec_height(),
            column < self.spec_width(),
        ensures
            idx == spec_index(self.spec_width() as int, row as int, column as int),
            idx < self.spec_cells().len(),
    {
        proof {
            lemma_index_in_range(
                self.width as int,
                self.height as int,
                row as int,
                column as int,
            );
        }
        (row * self.width + column) as usize
    }

    /// A cell's contribution to the live-neighbor tally of `(row, column)`,
    /// read at toroidal offset `(dr, dc)`: 1 if that neighbor is alive,
    /// else 0.
    fn neighbor_weight(&self, row: u32, column: u32, dr: u32, dc: u32) -> (weight: u8)
        requires
            self.wf(),
            row < self.spec_height(),
            column < self.spec_width(),
        ensures
            weight == live_weight(
                neighbor(
                    self.spec_cells(),
                    self.spec_width() as int,
                    self.spec_height() as int,
                    row as int,
                    column as int,
                    dr as int,
                    dc as int,
                ),
            ),
            weight <= 1,
    {
        let neighbor_row = (((row as u64) + (dr as u64)) % (self.height as u64)) as u32;
        let neighbor_col = (((column as u64) + (dc as u64)) % (self.width as u64)) as u32;
        let idx = self.get_index(neighbor_row, neighbor_col);
        if self.cells[idx] == Cell::Alive {
            1
        } else {
            0
        }
    }

    /// Number of live cells among the eight toroidal neighbors of
    /// `(row, column)`: row and column each offset by minus one (as
    /// dimension minus one, with wrap), zero, or one, skipping the cell
    /// itself. Transitional and dead neighbors contribute nothing. The
    /// count always lies in 0..=8.
    pub fn live_neighbor_count(&self, row: u32, column: u32) -> (count: u8)
        requires
            self.wf(),
            row < self.spec_height(),
            column < self.spec_width(),
        ensures
            count == live_neighbors(
                self.spec_cells(),
                self.spec_width() as int,
                self.spec_height() as int,
                row as int,
                column as int,
            ),
            count <= 8,
    {
        let up = self.height - 1;
        let left = self.width - 1;
        let mut count: u8 = 0;
        count += self.neighbor_weight(row, column, up, left);
        count += self.neighbor_weight(row, column, up, 0);
        count += self.neighbor_weight(row, column, up, 1);
        count += self.neighbor_weight(row, column, 0, left);
        count += self.neighbor_weight(row, column, 0, 1);
        count += self.neighbor_weight(row, column, 1, left);
        count += self.neighbor_weight(row, column, 1, 0);
        count += self.neighbor_weight(row, column, 1, 1);
        count
    }

    /// Build a universe of the given dimensions. The caller supplies one
    /// draw of the injected random source per cell: `true` starts the cell
    /// growing, `false` dying. No cell starts settled; the first `tick`
    /// settles the grid before `tock` first applies the life rule.
    pub fn new(width: u32, height: u32, flips: &Vec<bool>) -> (u: Universe)
        requires
            1 <= width,
            1 <= height,
            width * height <= u32::MAX,
            flips@.len() == width * height,
        ensures
            u.wf(),
            u.spec_width() == width,
            u.spec_height() == height,
            forall|i: int|
                0 <= i < flips@.len() ==> u.spec_cells()[i] == (if flips@[i] {
                    Cell::Growing
                } else {
                    Cell::Dying
                }),
    {
        let n = flips.len();
        let mut cells: Vec<Cell> = Vec::new();
        let mut i: usize = 0;
        while i < n
            invariant
                i <= n,
                n == flips@.len(),
                cells@.len() == i,
                forall|j: int|
                    0 <= j < i ==> cells@[j] == (if flips@[j] {
                        Cell::Growing
                    } else {
                        Cell::Dying
                    }),
            decreases n - i,
        {
            cells.push(if flips[i] {
                Cell::Growing
            } else {
                Cell::Dying
            });
            i += 1;
        }
        Universe { width, height, cells }
    }

    /// Phase one of a generation: settle every transition. Growing cells
    /// become alive, dying cells become dead, settled cells are untouched.
    /// Neighbor states play no part: each cell's next state depends on its
    /// own prior state alone, and the grid is replaced as a whole.
    pub fn tick(&mut self)
        requires
            old(self).wf(),
        ensures
            final(self).wf(),
            final(self).spec_width() == old(self).spec_width(),
            final(self).spec_height() == old(self).spec_height(),
            final(self).spec_cells().len() == old(self).spec_cells().len(),
            forall|i: int|
                0 <= i < old(self).spec_cells().len() ==> final(self).spec_cells()[i] == settle(
                    old(self).spec_cells()[i],
                ),
    {
        let n = self.cells.len();
        let mut next: Vec<Cell> = Vec::new();
        let mut i: usize = 0;
        while i < n
            invariant
                i <= n,
                n == self.cells@.len(),
                *self == *old(self),
                next@.len() == i,
                forall|j: int| 0 <= j < i ==> next@[j] == settle(self.cells@[j]),
            decreases n - i,
        {
            let c = self.cells[i];
            let settled = match c {
                Cell::Growing => Cell::Alive,
                Cell::Dying => Cell::Dead,
                _ => c,
            };
            next.push(settled);
            i += 1;
        }
        self.cells = next;
    }

    /// One cell's evaluation under the life rule, in the rule's order of
    /// precedence: the cell's next state, and whether a life-sustaining arm
    /// matched (stability or reproduction).
    fn step_cell(cell: Cell, count: u8) -> (res: (Cell, bool))
        ensures
            res.0 == step(cell, count as nat),
            res.1 == sustained(cell, count as nat),
    {
        if cell == Cell::Alive && count < 2 {
            // underpopulation: the live cell starts dying
            (Cell::Dying, false)
        } else if cell == Cell::Alive && (count == 2 || count == 3) {
            // stability: the live cell lives on
            (Cell::Alive, true)
        } else if cell == Cell::Alive && count > 3 {
            // overpopulation: the live cell starts dying
            (Cell::Dying, false)
        } else if cell == Cell::Dead && count == 3 {
            // reproduction: the dead cell starts growing
            (Cell::Growing, true)
        } else if cell == Cell::Alive {
            // kept for the rule's stated precedence; the three live arms
            // above leave no count for this one to catch
            (Cell::Alive, true)
        } else {
            // dead cells stay dead; an unsettled cell is sent to dead
            (Cell::Dead, false)
        }
    }

    /// Phase two of a generation: apply the life rule to every cell at
    /// once. Meant to run on a settled grid, right after `tick`.
    ///
    /// Each cell's next state is decided by `rules::step` from its current
    /// state and its live-neighbor count, both read against the grid as the
    /// call found it, so every cell sees one consistent snapshot; the new
    /// grid replaces the old as a whole. A live cell with fewer than two or
    /// more than three live neighbors starts dying; a live cell with two or
    /// three stays alive; a dead cell with exactly three starts growing; any
    /// other cell ends up dead — in particular, a transitional cell that
    /// reaches this phase unsettled is sent straight to dead.
    ///
    /// The returned flag reports whether some cell was evaluated under a
    /// life-sustaining rule (`rules::sustained`) — not whether any cell's
    /// value changed: a stable live cell sets it even though its value is
    /// untouched, and a cell that starts dying does not.
    #[verifier::loop_isolation(false)]
    #[verifier::rlimit(50)]
    pub fn tock(&mut self) -> (changed: bool)
        requires
            old(self).wf(),
        ensures
            final(self).wf(),
            final(self).spec_width() == old(self).spec_width(),
            final(self).spec_height() == old(self).spec_height(),
            final(self).spec_cells().len() == old(self).spec_cells().len(),
            forall|r: int, c: int|
                0 <= r < old(self).spec_height() && 0 <= c < old(self).spec_width()
                    ==> final(self).spec_cells()[spec_index(old(self).spec_width() as int, r, c)]
                    == step(
                    old(self).spec_cells()[spec_index(old(self).spec_width() as int, r, c)],
                    #[trigger] live_neighbors(
                        old(self).spec_cells(),
                        old(self).spec_width() as int,
                        old(self).spec_height() as int,
                        r,
                        c,
                    ),
                ),
            changed == any_sustained(
                old(self).spec_cells(),
                old(self).spec_width() as int,
                old(self).spec_height() as int,
            ),
    {
        let width = self.width;
        let height = self.height;
        let ghost wi = width as int;
        let ghost hi = height as int;
        let ghost grid = self.cells@;
        let mut change = false;
        let mut next: Vec<Cell> = Vec::new();
        let mut row: u32 = 0;
        while row < height
            invariant
                row <= height,
                *self == *old(self),
                next@.len() == row as int * wi,
                forall|r: int, c: int|
                    scanned_before(wi, row as int, 0, r, c) ==> next@[spec_index(wi, r, c)]
                        == step(
                        grid[spec_index(wi, r, c)],
                        #[trigger] live_neighbors(grid, wi, hi, r, c),
                    ),
                change == any_sustained_before(grid, wi, hi, row as int, 0),
            decreases height - row,
        {
            let mut col: u32 = 0;
            while col < width
                invariant
                    col <= width,
                    row < height,
                    *self == *old(self),
                    next@.len() == row as int * wi + col as int,
                    forall|r: int, c: int|
                        scanned_before(wi, row as int, col as int, r, c) ==> next@[spec_index(
                            wi,
                            r,
                            c,
                        )] == step(
                            grid[spec_index(wi, r, c)],
                            #[trigger] live_neighbors(grid, wi, hi, r, c),
                        ),
                    change == any_sustained_before(grid, wi, hi, row as int, col as int),
                decreases width - col,
            {
                let idx = self.get_index(row, col);
                let cell = self.cells[idx];
                let count = self.live_neighbor_count(row, col);
                let (next_cell, sustain) = Self::step_cell(cell, count);
                if sustain {
                    change = true;
                }
                next.push(next_cell);
                proof {
                    lemma_scan_extend(grid, wi, hi, row as int, col as int);
                    assert forall|r: int, c: int|
                        scanned_before(wi, row as int, col as int + 1, r, c)
                            implies next@[spec_index(wi, r, c)] == step(
                        grid[spec_index(wi, r, c)],
                        #[trigger] live_neighbors(grid, wi, hi, r, c),
                    ) by {
                        if r == row as int && c == col as int {
                        } else {
                            assert(scanned_before(wi, row as int, col as int, r, c));
                            if r < row as int {
                                lemma_index_row_ordered(wi, r, c, row as int, col as int);
                            }
                        }
                    }
                }
                col += 1;
            }
            proof {
                lemma_scan_row_wrap(grid, wi, hi, row as int);
                assert((row as int + 1) * wi == row as int * wi + wi) by (nonlinear_arith);
            }
            row += 1;
        }
        proof {
            lemma_scan_complete(grid, wi, hi);
            assert(hi * wi == wi * hi) by (nonlinear_arith);
        }
        self.cells = next;
        change
    }

    /// Re-randomize every cell in place from fresh draws of the injected
    /// random source, one per cell, with the same meaning as at
    /// construction. The dimensions are untouched.
    pub fn reset(&mut self, flips: &Vec<bool>)
        requires
            old(self).wf(),
            flips@.len() == old(self).spec_width() * old(self).spec_height(),
        ensures
            final(self).wf(),
            final(self).spec_width() == old(self).spec_width(),
            final(self).spec_height() == old(self).spec_height(),
            forall|i: int|
                0 <= i < flips@.len() ==> final(self).spec_cells()[i] == (if flips@[i] {
                    Cell::Growing
                } else {
                    Cell::Dying
                }),
    {
        let n = self.cells.len();
        let mut i: usize = 0;
        while i < n
            invariant
                i <= n,
                n == self.cells@.len(),
                self.width == old(self).width,
                self.height == old(self).height,
                self.cells@.len() == old(self).cells@.len(),
                old(self).wf(),
                flips@.len() == n,
                forall|j: int|
                    i <= j < n ==> self.cells@[j] == old(self).cells@[j],
                forall|j: int|
                    0 <= j < i ==> self.cells@[j] == (if flips@[j] {
                        Cell::Growing
                    } else {
                        Cell::Dying
                    }),
            decreases n - i,
        {
            self.cells[i] = if flips[i] {
                Cell::Growing
            } else {
                Cell::Dying
            };
            i += 1;
        }
    }

    /// The fixed width.
    pub fn width(&self) -> (w: u32)
        ensures
            w == self.spec_width(),
    {
        self.width
    }

    /// The fixed height.
    pub fn height(&self) -> (h: u32)
        ensures
            h == self.spec_height(),
    {
        self.height
    }

    /// Read-only view of the cell buffer, row-major, one state per grid
    /// position. It reflects the grid as of the last mutating call.
    pub fn cells(&self) -> (cs: &Vec<Cell>)
        ensures
            cs@ == self.spec_cells(),
    {
        &self.cells
    }

    /// Whether the simulation has gone extinct: true exactly when every cell
    /// is settled dead.
    pub fn is_dead(&self) -> (r: bool)
        ensures
            r == (forall|i: int|
                0 <= i < self.spec_cells().len() ==> self.spec_cells()[i] == Cell::Dead),
    {
        let n = self.cells.len();
        let mut i: usize = 0;
        while i < n
            invariant
                i <= n,
                n == self.cells@.len(),
                forall|j: int| 0 <= j < i ==> self.cells@[j] == Cell::Dead,
            decreases n - i,
        {
            if self.cells[i] != Cell::Dead {
                return false;
            }
            i += 1;
        }
        true
    }
}

} // verus!
