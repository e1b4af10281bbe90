//! The cell state and the generation-advance rule.
//!
//! Everything here is stated over a mathematical model of the grid: a
//! `Seq<Cell>` of length `width * height`, laid out row-major, with
//! toroidal (wrap-around) adjacency. The transition from one generation
//! to the next is the spec function [`step`]; the executable code in
//! `grid` is proved to compute exactly that.

use vstd::arithmetic::div_mod::lemma_fundamental_div_mod;
use vstd::arithmetic::div_mod::lemma_mod_division_less_than_divisor;
use vstd::prelude::*;

verus! {

/// A cell is either dead or alive.
#[derive(Clone, Copy, Debug, PartialEq, Eq, Structural)]
pub enum Cell {
    Dead,
    Alive,
}

/// How much a cell contributes to a live-neighbor count: an alive cell
/// counts 1, a dead cell 0.
pub open spec fn live_value(c: Cell) -> nat {
    match c {
        Cell::Dead => 0,
        Cell::Alive => 1,
    }
}

/// The opposite state: `Dead` becomes `Alive` and vice versa.
pub open spec fn toggled(c: Cell) -> Cell {
    match c {
        Cell::Dead => Cell::Alive,
        Cell::Alive => Cell::Dead,
    }
}

/// The deterministic seed pattern: the cell at linear index `i` is alive
/// exactly when `i` is divisible by 2 or by 7.
pub open spec fn pattern_cell(i: int) -> Cell {
    if i % 2 == 0 || i % 7 == 0 {
        Cell::Alive
    } else {
        Cell::Dead
    }
}

/// One coordinate step towards index 0, wrapping to `m - 1` at the edge.
pub open spec fn wrap_dec(i: int, m: int) -> int {
    if i == 0 {
        m - 1
    } else {
        i - 1
    }
}

/// One coordinate step away from index 0, wrapping to 0 at the edge.
pub open spec fn wrap_inc(i: int, m: int) -> int {
    if i + 1 == m {
        0
    } else {
        i + 1
    }
}

/// A well-formed grid: positive dimensions and a buffer of exactly
/// `width * height` cells.
pub open spec fn grid_wf(cells: Seq<Cell>, width: int, height: int) -> bool {
    &&& width > 0
    &&& height > 0
    &&& cells.len() == width * height
}

/// The cell at `(row, col)` of a row-major grid of the given width.
pub open spec fn cell_at(cells: Seq<Cell>, width: int, row: int, col: int) -> Cell {
    cells[row * width + col]
}

/// The number of live cells among the eight toroidal neighbors of
/// `(row, col)`: offsets -1/0/+1 in each axis, wrapped modularly, with
/// the (0, 0) self-offset skipped. On a grid with a dimension of 1 the
/// wrapped positions coincide and a cell is counted once per offset that
/// reaches it.
pub open spec fn neighbor_count(
    cells: Seq<Cell>,
    width: int,
    height: int,
    row: int,
    col: int,
) -> nat {
    let up = wrap_dec(row, height);
    let down = wrap_inc(row, height);
    let left = wrap_dec(col, width);
    let right = wrap_inc(col, width);
    live_value(cell_at(cells, width, up, left)) + live_value(cell_at(cells, width, up, col))
        + live_value(cell_at(cells, width, up, right)) + live_value(
        cell_at(cells, width, row, left),
    ) + live_value(cell_at(cells, width, row, right)) + live_value(
        cell_at(cells, width, down, left),
    ) + live_value(cell_at(cells, width, down, col)) + live_value(
        cell_at(cells, width, down, right),
    )
}

/// The transition rule, applied to one cell: an alive cell survives with
/// 2 or 3 live neighbors and dies otherwise; a dead cell becomes alive
/// with exactly 3 live neighbors and stays dead otherwise.
pub open spec fn next_cell(c: Cell, live_neighbors: nat) -> Cell {
    match c {
        Cell::Alive => if live_neighbors < 2 {
            Cell::Dead
        } else if live_neighbors <= 3 {
            Cell::Alive
        } else {
            Cell::Dead
        },
        Cell::Dead => if live_neighbors == 3 {
            Cell::Alive
        } else {
            Cell::Dead
        },
    }
}

/// The next generation of a whole grid: every cell advanced by
/// [`next_cell`] against the current generation only. This is the
/// simultaneity guarantee: the result is a function of `cells` as a
/// whole, never of a partially updated buffer.
pub open spec fn step(cells: Seq<Cell>, width: int, height: int) -> Seq<Cell> {
    Seq::new(
        cells.len(),
        |i: int| next_cell(cells[i], neighbor_count(cells, width, height, i / width, i % width)),
    )
}

/// `n` generations of [`step`].
pub open spec fn step_n(cells: Seq<Cell>, width: int, height: int, n: nat) -> Seq<Cell>
    decreases n,
{
    if n == 0 {
        cells
    } else {
        step(step_n(cells, width, height, (n - 1) as nat), width, height)
    }
}

/// Every cell of the grid is dead.
pub open spec fn all_dead(cells: Seq<Cell>) -> bool {
    forall|i: int| 0 <= i < cells.len() ==> cells[i] == Cell::Dead
}

/// The executable transition rule for one cell, proved equal to
/// [`next_cell`].
pub(crate) fn advance_cell(c: Cell, live_neighbors: u8) -> (next: Cell)
    ensures
        next == next_cell(c, live_neighbors as nat),
{
    match c {
        Cell::Alive => if live_neighbors < 2 {
            Cell::Dead
        } else if live_neighbors <= 3 {
            Cell::Alive
        } else {
            Cell::Dead
        },
        Cell::Dead => if live_neighbors == 3 {
            Cell::Alive
        } else {
            Cell::Dead
        },
    }
}

/// A row-major index lies inside the buffer of a well-formed grid.
pub proof fn lemma_index_in_range(width: int, height: int, row: int, col: int)
    requires
        width > 0,
        height > 0,
        0 <= row < height,
        0 <= col < width,
    ensures
        0 <= row * width + col < height * width,
{
    assert(0 <= row * width + col < height * width) by (nonlinear_arith)
        requires
            width > 0,
            height > 0,
            0 <= row < height,
            0 <= col < width,
    ;
}

/// Row-major indexing respects the lexicographic order on `(row, col)`
/// pairs whose column is in range.
pub(crate) proof fn lemma_lex_index(rr: int, cc: int, row: int, col: int, width: int)
    requires
        0 <= cc < width,
        0 <= rr,
        0 <= col,
        rr < row || (rr == row && cc < col),
    ensures
        rr * width + cc < row * width + col,
{
    assert(rr * width + cc < row * width + col) by (nonlinear_arith)
        requires
            0 <= cc < width,
            0 <= rr,
            0 <= col,
            rr < row || (rr == row && cc < col),
    ;
}

/// Read [`step`] at a `(row, col)` coordinate: the stepped grid holds, at
/// the row-major index of the pair, the transition of the old cell there
/// under its old neighbor count.
pub proof fn lemma_step_at(cells: Seq<Cell>, width: int, height: int, row: int, col: int)
    requires
        grid_wf(cells, width, height),
        0 <= row < height,
        0 <= col < width,
    ensures
        step(cells, width, height)[row * width + col] == next_cell(
            cell_at(cells, width, row, col),
            neighbor_count(cells, width, height, row, col),
        ),
{
    lemma_index_in_range(width, height, row, col);
    let i = row * width + col;
    assert(i / width == row && i % width == col) by (nonlinear_arith)
        requires
            width > 0,
            0 <= col < width,
            0 <= row,
            i == row * width + col,
    ;
}

/// A sequence that agrees with [`step`] at every `(row, col)` coordinate
/// of a well-formed grid, and has the right length, is the stepped grid.
pub(crate) proof fn lemma_step_pointwise(
    cells: Seq<Cell>,
    width: int,
    height: int,
    next: Seq<Cell>,
)
    requires
        grid_wf(cells, width, height),
        next.len() == cells.len(),
        forall|row: int, col: int|
            0 <= row < height && 0 <= col < width ==> next[row * width + col] == next_cell(
                cell_at(cells, width, row, col),
                #[trigger] neighbor_count(cells, width, height, row, col),
            ),
    ensures
        next == step(cells, width, height),
{
    assert forall|i: int| 0 <= i < next.len() implies next[i] == step(cells, width, height)[i] by {
        lemma_fundamental_div_mod(i, width);
        lemma_mod_division_less_than_divisor(i, width);
        let row = i / width;
        let col = i % width;
        assert(0 <= row < height && i == row * width + col) by (nonlinear_arith)
            requires
                width > 0,
                height > 0,
                0 <= col < width,
                i == width * row + col,
                0 <= i < height * width,
        ;
    }
    assert(next =~= step(cells, width, height));
}

/// Wrapped coordinates stay inside their dimension.
pub(crate) proof fn lemma_wrap_in_range(i: int, m: int)
    requires
        0 <= i < m,
    ensures
        0 <= wrap_dec(i, m) < m,
        0 <= wrap_inc(i, m) < m,
{
}

/// On an all-dead grid every neighbor count is zero.
pub proof fn lemma_dead_neighbor_count(
    cells: Seq<Cell>,
    width: int,
    height: int,
    row: int,
    col: int,
)
    requires
        grid_wf(cells, width, height),
        all_dead(cells),
        0 <= row < height,
        0 <= col < width,
    ensures
        neighbor_count(cells, width, height, row, col) == 0,
{
    lemma_wrap_in_range(row, height);
    lemma_wrap_in_range(col, width);
    lemma_index_in_range(width, height, wrap_dec(row, height), wrap_dec(col, width));
    lemma_index_in_range(width, height, wrap_dec(row, height), col);
    lemma_index_in_range(width, height, wrap_dec(row, height), wrap_inc(col, width));
    lemma_index_in_range(width, height, row, wrap_dec(col, width));
    lemma_index_in_range(width, height, row, wrap_inc(col, width));
    lemma_index_in_range(width, height, wrap_inc(row, height), wrap_dec(col, width));
    lemma_index_in_range(width, height, wrap_inc(row, height), col);
    lemma_index_in_range(width, height, wrap_inc(row, height), wrap_inc(col, width));
}

/// One step of an all-dead grid is all dead and keeps its length: no cell
/// is born without exactly three live neighbors.
pub proof fn lemma_dead_grid_step(cells: Seq<Cell>, width: int, height: int)
    requires
        grid_wf(cells, width, height),
        all_dead(cells),
    ensures
        step(cells, width, height).len() == cells.len(),
        all_dead(step(cells, width, height)),
{
    let next = step(cells, width, height);
    assert forall|i: int| 0 <= i < next.len() implies next[i] == Cell::Dead by {
        lemma_fundamental_div_mod(i, width);
        lemma_mod_division_less_than_divisor(i, width);
        let row = i / width;
        let col = i % width;
        assert(0 <= row < height) by (nonlinear_arith)
            requires
                width > 0,
                height > 0,
                0 <= col < width,
                i == width * row + col,
                0 <= i < height * width,
        ;
        lemma_dead_neighbor_count(cells, width, height, row, col);
    }
}

/// Stability of the dead grid: an all-dead grid stepped any number of
/// times remains all dead, with its length unchanged.
pub proof fn lemma_dead_grid_stable(cells: Seq<Cell>, width: int, height: int, n: nat)
    requires
        grid_wf(cells, width, height),
        all_dead(cells),
    ensures
        step_n(cells, width, height, n).len() == cells.len(),
        all_dead(step_n(cells, width, height, n)),
    decreases n,
{
    if n > 0 {
        lemma_dead_grid_stable(cells, width, height, (n - 1) as nat);
        lemma_dead_grid_step(step_n(cells, width, height, (n - 1) as nat), width, height);
    }
}

/// Toroidal consistency at the corner: on a grid at least 2 wide and
/// 2 high, the neighbor count of cell `(0, 0)` is the sum of the live
/// values of the eight cells that wrap around the corner:
/// `(height-1, width-1)`, `(height-1, 0)`, `(height-1, 1)`,
/// `(0, width-1)`, `(0, 1)`, `(1, width-1)`, `(1, 0)` and `(1, 1)`.
pub proof fn lemma_corner_neighbor_count(cells: Seq<Cell>, width: int, height: int)
    requires
        grid_wf(cells, width, height),
        width >= 2,
        height >= 2,
    ensures
        neighbor_count(cells, width, height, 0, 0) == live_value(
            cell_at(cells, width, height - 1, width - 1),
        ) + live_value(cell_at(cells, width, height - 1, 0)) + live_value(
            cell_at(cells, width, height - 1, 1),
        ) + live_value(cell_at(cells, width, 0, width - 1)) + live_value(
            cell_at(cells, width, 0, 1),
        ) + live_value(cell_at(cells, width, 1, width - 1)) + live_value(
            cell_at(cells, width, 1, 0),
        ) + live_value(cell_at(cells, width, 1, 1)),
{
    assert(wrap_dec(0, height) == height - 1);
    assert(wrap_inc(0, height) == 1);
    assert(wrap_dec(0, width) == width - 1);
    assert(wrap_inc(0, width) == 1);
}

} // verus!
