use vstd::prelude::*;

use vstd::arithmetic::div_mod::{lemma_mod_self_0, lemma_small_mod};

use crate::cell::Cell;

verus! {

/// Row-major position of the cell at `row`, `col` in a grid `width` wide.
pub open spec fn spec_index(width: int, row: int, col: int) -> int {
    row * width + col
}

/// A cell's contribution to a live-neighbor tally: 1 if it is alive, else 0.
pub open spec fn live_weight(c: Cell) -> nat {
    if c == Cell::Alive {
        1
    } else {
        0
    }
}

/// The cell at toroidal offset `(dr, dc)` from `(row, col)`: each coordinate
/// moves forward by the offset and wraps modulo its dimension, so an offset
/// of `height - 1` or `width - 1` is a step backwards with wrap.
pub open spec fn neighbor(
    cells: Seq<Cell>,
    width: int,
    height: int,
    row: int,
    col: int,
    dr: int,
    dc: int,
) -> Cell {
    cells[spec_index(width, (row + dr) % height, (col + dc) % width)]
}

/// How many of the eight toroidal neighbors of `(row, col)` are alive.
pub open spec fn live_neighbors(
    cells: Seq<Cell>,
    width: int,
    height: int,
    row: int,
    col: int,
) -> nat {
    live_weight(neighbor(cells, width, height, row, col, height - 1, width - 1)) + live_weight(
        neighbor(cells, width, height, row, col, height - 1, 0),
    ) + live_weight(neighbor(cells, width, height, row, col, height - 1, 1)) + live_weight(
        neighbor(cells, width, height, row, col, 0, width - 1),
    ) + live_weight(neighbor(cells, width, height, row, col, 0, 1)) + live_weight(
        neighbor(cells, width, height, row, col, 1, width - 1),
    ) + live_weight(neighbor(cells, width, height, row, col, 1, 0)) + live_weight(
        neighbor(cells, width, height, row, col, 1, 1),
    )
}

/// What the settling phase makes of one cell: each transition reaches its
/// terminal state, settled cells stay put.
pub open spec fn settle(c: Cell) -> Cell {
    match c {
        Cell::Growing => Cell::Alive,
        Cell::Dying => Cell::Dead,
        _ => c,
    }
}

/// What the rule phase makes of one cell that has `n` live neighbors,
/// following the arms of the life rule in their order of precedence:
/// underpopulation, stability, overpopulation, reproduction, then the
/// defaults. The bare-alive arm before the defaults is kept for precedence
/// but is unreachable: every count falls under one of the three arms above
/// it. The final default sends a transitional cell straight to dead, which
/// only matters if the rule phase runs on a grid the settling phase has not
/// prepared.
pub open spec fn step(c: Cell, n: nat) -> Cell {
    if c == Cell::Alive && n < 2 {
        Cell::Dying
    } else if c == Cell::Alive && (n == 2 || n == 3) {
        Cell::Alive
    } else if c == Cell::Alive && n > 3 {
        Cell::Dying
    } else if c == Cell::Dead && n == 3 {
        Cell::Growing
    } else if c == Cell::Alive {
        Cell::Alive
    } else {
        Cell::Dead
    }
}

/// Whether the rule phase evaluates a cell under a life-sustaining rule: a
/// live cell kept alive by two or three live neighbors, or a dead cell set
/// growing by exactly three. This — not "the cell's value differed" — is
/// what the rule phase reports: a stable live cell counts even though its
/// value does not change.
pub open spec fn sustained(c: Cell, n: nat) -> bool {
    (c == Cell::Alive && (n == 2 || n == 3)) || (c == Cell::Dead && n == 3)
}

/// Whether some cell of the grid is evaluated under a life-sustaining rule.
pub open spec fn any_sustained(cells: Seq<Cell>, width: int, height: int) -> bool {
    exists|r: int, c: int|
        0 <= r < height && 0 <= c < width && sustained(
            cells[spec_index(width, r, c)],
            #[trigger] live_neighbors(cells, width, height, r, c),
        )
}

/// Whether `(r, c)` comes before `(row, col)` in a row-major scan of a grid
/// `width` wide.
pub open spec fn scanned_before(width: int, row: int, col: int, r: int, c: int) -> bool {
    0 <= c < width && 0 <= r && (r < row || (r == row && c < col))
}

/// Whether some cell scanned before `(row, col)` is evaluated under a
/// life-sustaining rule.
pub open spec fn any_sustained_before(
    cells: Seq<Cell>,
    width: int,
    height: int,
    row: int,
    col: int,
) -> bool {
    exists|r: int, c: int|
        scanned_before(width, row, col, r, c) && sustained(
            cells[spec_index(width, r, c)],
            #[trigger] live_neighbors(cells, width, height, r, c),
        )
}

/// The settling phase is the identity on a settled grid: every cell of a
/// grid that holds only dead and alive cells is left exactly as it was.
pub proof fn lemma_settle_of_settled(cells: Seq<Cell>)
    requires
        forall|i: int| 0 <= i < cells.len() ==> (#[trigger] cells[i]).is_settled(),
    ensures
        forall|i: int| 0 <= i < cells.len() ==> settle(#[trigger] cells[i]) == cells[i],
{
}

/// The settling phase on one cell: a growing cell settles to alive, a dying
/// cell to dead, and whatever the cell was, it is settled afterwards.
pub proof fn lemma_settle_transitions(c: Cell)
    ensures
        c == Cell::Growing ==> settle(c) == Cell::Alive,
        c == Cell::Dying ==> settle(c) == Cell::Dead,
        settle(c).is_settled(),
{
}

/// Diagonal wrap on the torus: a live cell at the bottom-right corner is
/// counted among the neighbors of the top-left corner, and a live cell at
/// the top-left corner among the neighbors of the bottom-right one.
pub proof fn lemma_toroidal_wrap(cells: Seq<Cell>, width: int, height: int)
    requires
        0 < width,
        0 < height,
        cells.len() == width * height,
    ensures
        cells[spec_index(width, height - 1, width - 1)] == Cell::Alive ==> live_neighbors(
            cells,
            width,
            height,
            0,
            0,
        ) >= 1,
        cells[spec_index(width, 0, 0)] == Cell::Alive ==> live_neighbors(
            cells,
            width,
            height,
            height - 1,
            width - 1,
        ) >= 1,
{
    lemma_small_mod((height - 1) as nat, height as nat);
    lemma_small_mod((width - 1) as nat, width as nat);
    lemma_mod_self_0(height);
    lemma_mod_self_0(width);
    // the (height - 1, width - 1) offset from (0, 0) lands on the far corner
    assert(neighbor(cells, width, height, 0, 0, height - 1, width - 1) == cells[spec_index(
        width,
        height - 1,
        width - 1,
    )]);
    // and the (1, 1) offset from the far corner wraps back to (0, 0)
    assert(neighbor(cells, width, height, height - 1, width - 1, 1, 1) == cells[spec_index(
        width,
        0,
        0,
    )]);
}

/// Extending a row-major scan by the one cell `(row, col)` adds exactly
/// that cell's evaluation to "some scanned cell was sustained".
pub proof fn lemma_scan_extend(cells: Seq<Cell>, width: int, height: int, row: int, col: int)
    requires
        0 <= row,
        0 <= col < width,
    ensures
        any_sustained_before(cells, width, height, row, col + 1) == (any_sustained_before(
            cells,
            width,
            height,
            row,
            col,
        ) || sustained(
            cells[spec_index(width, row, col)],
            live_neighbors(cells, width, height, row, col),
        )),
{
    if any_sustained_before(cells, width, height, row, col + 1) {
        let (r, c) = choose|r: int, c: int|
            scanned_before(width, row, col + 1, r, c) && sustained(
                cells[spec_index(width, r, c)],
                #[trigger] live_neighbors(cells, width, height, r, c),
            );
        if r == row && c == col {
        } else {
            assert(scanned_before(width, row, col, r, c));
        }
    }
    if any_sustained_before(cells, width, height, row, col) {
        let (r, c) = choose|r: int, c: int|
            scanned_before(width, row, col, r, c) && sustained(
                cells[spec_index(width, r, c)],
                #[trigger] live_neighbors(cells, width, height, r, c),
            );
        assert(scanned_before(width, row, col + 1, r, c));
    }
    if sustained(cells[spec_index(width, row, col)], live_neighbors(cells, width, height, row, col))
    {
        assert(scanned_before(width, row, col + 1, row, col));
    }
}

/// A scan that has finished row `row` has seen the same cells as one that
/// stands at the start of row `row + 1`.
pub proof fn lemma_scan_row_wrap(cells: Seq<Cell>, width: int, height: int, row: int)
    requires
        0 <= row,
        0 < width,
    ensures
        any_sustained_before(cells, width, height, row, width) == any_sustained_before(
            cells,
            width,
            height,
            row + 1,
            0,
        ),
{
    assert forall|r: int, c: int|
        scanned_before(width, row, width, r, c) == scanned_before(width, row + 1, 0, r, c) by {
    }
}

/// A scan that has finished the last row has seen the whole grid.
pub proof fn lemma_scan_complete(cells: Seq<Cell>, width: int, height: int)
    requires
        0 < width,
        0 <= height,
    ensures
        any_sustained_before(cells, width, height, height, 0) == any_sustained(
            cells,
            width,
            height,
        ),
{
    assert forall|r: int, c: int|
        scanned_before(width, height, 0, r, c) == (0 <= r < height && 0 <= c < width) by {
    }
}

/// A cell in range lies within the grid's buffer.
pub proof fn lemma_index_in_range(width: int, height: int, row: int, col: int)
    by (nonlinear_arith)
    requires
        0 < width,
        0 <= row < height,
        0 <= col < width,
    ensures
        0 <= spec_index(width, row, col) < width * height,
{
}

/// A row-major scan visits positions in increasing index order: a cell in a
/// strictly earlier row has a strictly smaller index, whatever the columns.
pub proof fn lemma_index_row_ordered(width: int, r1: int, c1: int, r2: int, c2: int)
    by (nonlinear_arith)
    requires
        0 <= c1 < width,
        0 <= c2,
        0 <= r1 < r2,
    ensures
        spec_index(width, r1, c1) < spec_index(width, r2, c2),
{
}

} // verus!
