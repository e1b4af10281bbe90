//! The grid store: a [`Universe`] owns the cell buffer and its fixed
//! dimensions, and exposes the read, mutate and step operations.
//!
//! The stepper is the always-step variant: every call to [`Universe::tick`]
//! commits the next generation; there is no run/pause flag.

use crate::rules::advance_cell;
use crate::rules::all_dead;
use crate::rules::cell_at;
use crate::rules::grid_wf;
use crate::rules::lemma_index_in_range;
use crate::rules::lemma_lex_index;
use crate::rules::lemma_step_at;
use crate::rules::lemma_step_pointwise;
use crate::rules::live_value;
use crate::rules::neighbor_count;
use crate::rules::next_cell;
use crate::rules::pattern_cell;
use crate::rules::step;
use crate::rules::toggled;
use crate::rules::wrap_dec;
use crate::rules::wrap_inc;
use crate::rules::Cell;
use vstd::prelude::*;
use vstd::string::StringExecFns;

verus! {

/// The error of [`Universe::set`]: the offending coordinates, at least
/// one of which is not strictly below its dimension bound.
#[derive(Clone, Copy, Debug, PartialEq, Eq, Structural)]
pub struct OutOfRange {
    pub row: u32,
    pub column: u32,
}

/// The glyph of one cell in the rendered text: a hollow square for a
/// dead cell, a filled square for an alive one.
pub open spec fn glyph(c: Cell) -> Seq<char> {
    match c {
        Cell::Dead => "◻"@,
        Cell::Alive => "◼"@,
    }
}

/// The glyphs of the first `ncols` cells of row `row`.
pub open spec fn rendered_row(cells: Seq<Cell>, width: int, row: int, ncols: int) -> Seq<char>
    decreases ncols,
{
    if ncols <= 0 {
        Seq::empty()
    } else {
        rendered_row(cells, width, row, ncols - 1) + glyph(cells[row * width + (ncols - 1)])
    }
}

/// The first `nrows` rows of the rendered grid, one line per row, each
/// line newline-terminated.
pub open spec fn rendered(cells: Seq<Cell>, width: int, nrows: int) -> Seq<char>
    decreases nrows,
{
    if nrows <= 0 {
        Seq::empty()
    } else {
        rendered(cells, width, nrows - 1) + rendered_row(cells, width, nrows - 1, width) + "\n"@
    }
}

/// A fixed-size toroidal grid of cells.
///
/// The buffer is row-major: the cell at `(row, column)` lives at linear
/// index `row * width + column`. Its length is exactly `width * height`
/// and never changes after construction.
pub struct Universe {
    width: u32,
    height: u32,
    cells: Vec<Cell>,
}

impl View for Universe {
    type V = Seq<Cell>;

    /// The mathematical content of the grid: the cell buffer as a sequence.
    closed spec fn view(&self) -> Seq<Cell> {
        self.cells@
    }
}

impl Universe {
    /// The width, for use in contracts.
    pub closed spec fn spec_width(self) -> u32 {
        self.width
    }

    /// The height, for use in contracts.
    pub closed spec fn spec_height(self) -> u32 {
        self.height
    }

    /// Well-formedness: positive dimensions and a buffer of exactly
    /// `width * height` cells.
    pub open spec fn wf(self) -> bool {
        grid_wf(self@, self.spec_width() as int, self.spec_height() as int)
    }

    /// An all-dead grid of the given size.
    pub fn new(width: u32, height: u32) -> (u: Universe)
        requires
            width > 0,
            height > 0,
            width as int * height as int <= usize::MAX as int,
        ensures
            u.wf(),
            u.spec_width() == width,
            u.spec_height() == height,
            all_dead(u@),
    {
        let n: usize = (width as usize) * (height as usize);
        let mut cells: Vec<Cell> = Vec::new();
        while cells.len() < n
            invariant
                cells@.len() <= n,
                all_dead(cells@),
            decreases n - cells@.len(),
        {
            cells.push(Cell::Dead);
        }
        Universe { width, height, cells }
    }

    /// The default grid: 64 x 64, deterministically seeded with the
    /// fixed pattern (alive exactly where the linear index is divisible
    /// by 2 or by 7).
    pub fn create() -> (u: Universe)
        ensures
            u.wf(),
            u.spec_width() == 64,
            u.spec_height() == 64,
            forall|i: int| 0 <= i < u@.len() ==> u@[i] == pattern_cell(i),
    {
        let mut u = Universe::new(64, 64);
        u.generate_pattern();
        u
    }

    /// The grid's width. Never fails.
    pub fn width(&self) -> (width: u32)
        ensures
            width == self.spec_width(),
    {
        self.width
    }

    /// The grid's height. Never fails.
    pub fn height(&self) -> (height: u32)
        ensures
            height == self.spec_height(),
    {
        self.height
    }

    /// A read-only view of the live cell buffer, row-major. The borrow
    /// is valid only until the next mutating call.
    pub fn cells(&self) -> (cells: &Vec<Cell>)
        ensures
            cells@ == self@,
    {
        &self.cells
    }

    /// The linear index of `(row, column)` in the row-major buffer.
    pub fn get_index(&self, row: u32, column: u32) -> (i: usize)
        requires
            self.wf(),
            row < self.spec_height(),
            column < self.spec_width(),
        ensures
            i == row as int * self.spec_width() as int + column as int,
            i < self@.len(),
    {
        let n = self.cells.len();
        proof {
            lemma_index_in_range(
                self.spec_width() as int,
                self.spec_height() as int,
                row as int,
                column as int,
            );
        }
        (row as usize) * (self.width as usize) + (column as usize)
    }

    /// Set every cell to `Dead`, keeping the dimensions. No failure mode.
    #[verifier::loop_isolation(false)]
    pub fn reset(&mut self)
        requires
            old(self).wf(),
        ensures
            final(self).wf(),
            final(self).spec_width() == old(self).spec_width(),
            final(self).spec_height() == old(self).spec_height(),
            all_dead(final(self)@),
    {
        let n = self.cells.len();
        let mut i: usize = 0;
        while i < n
            invariant
                i <= n,
                self.width == old(self).spec_width(),
                self.height == old(self).spec_height(),
                self.cells@.len() == n,
                forall|j: int| 0 <= j < i ==> self.cells@[j] == Cell::Dead,
            decreases n - i,
        {
            self.cells[i] = Cell::Dead;
            i += 1;
        }
    }

    /// Deterministically repopulate every cell from its linear index,
    /// independent of the prior state: alive exactly where the index is
    /// divisible by 2 or by 7.
    #[verifier::loop_isolation(false)]
    pub fn generate_pattern(&mut self)
        requires
            old(self).wf(),
        ensures
            final(self).wf(),
            final(self).spec_width() == old(self).spec_width(),
            final(self).spec_height() == old(self).spec_height(),
            forall|i: int| 0 <= i < final(self)@.len() ==> final(self)@[i] == pattern_cell(i),
    {
        let n = self.cells.len();
        let mut i: usize = 0;
        while i < n
            invariant
                i <= n,
                self.width == old(self).spec_width(),
                self.height == old(self).spec_height(),
                self.cells@.len() == n,
                forall|j: int| 0 <= j < i ==> self.cells@[j] == pattern_cell(j),
            decreases n - i,
        {
            self.cells[i] = if i % 2 == 0 || i % 7 == 0 {
                Cell::Alive
            } else {
                Cell::Dead
            };
            i += 1;
        }
    }

    /// Flip the cell at a valid coordinate between `Dead` and `Alive`.
    /// The coordinates are the caller's contract: out-of-range input is
    /// excluded by the precondition.
    pub fn toggle_cell(&mut self, row: u32, column: u32)
        requires
            old(self).wf(),
            row < old(self).spec_height(),
            column < old(self).spec_width(),
        ensures
            final(self).wf(),
            final(self).spec_width() == old(self).spec_width(),
            final(self).spec_height() == old(self).spec_height(),
            final(self)@ == old(self)@.update(
                row as int * old(self).spec_width() as int + column as int,
                toggled(
                    cell_at(old(self)@, old(self).spec_width() as int, row as int, column as int),
                ),
            ),
    {
        let i = self.get_index(row, column);
        let cur = self.cells[i];
        self.cells[i] = if cur == Cell::Alive {
            Cell::Dead
        } else {
            Cell::Alive
        };
    }

    /// Write `value` at `(row, column)` if both coordinates are strictly
    /// below their dimension bounds; otherwise fail with [`OutOfRange`]
    /// carrying the offending coordinates and leave the grid unmodified.
    pub fn set(&mut self, row: u32, column: u32, value: Cell) -> (result: Result<(), OutOfRange>)
        requires
            old(self).wf(),
        ensures
            final(self).wf(),
            final(self).spec_width() == old(self).spec_width(),
            final(self).spec_height() == old(self).spec_height(),
            row < old(self).spec_height() && column < old(self).spec_width() ==> result == Ok::<
                (),
                OutOfRange,
            >(()) && final(self)@ == old(self)@.update(
                row as int * old(self).spec_width() as int + column as int,
                value,
            ),
            !(row < old(self).spec_height() && column < old(self).spec_width()) ==> result == Err::<
                (),
                OutOfRange,
            >((OutOfRange { row, column })) && final(self)@ == old(self)@,
    {
        if row >= self.height || column >= self.width {
            Err(OutOfRange { row, column })
        } else {
            let i = self.get_index(row, column);
            self.cells[i] = value;
            Ok(())
        }
    }

    /// The live value (0 or 1) of the cell at a valid coordinate.
    fn cell_value(&self, row: u32, column: u32) -> (v: u8)
        requires
            self.wf(),
            row < self.spec_height(),
            column < self.spec_width(),
        ensures
            v == live_value(
                cell_at(self@, self.spec_width() as int, row as int, column as int),
            ),
    {
        let i = self.get_index(row, column);
        if self.cells[i] == Cell::Alive {
            1
        } else {
            0
        }
    }

    /// The number of live cells among the eight toroidal neighbors of
    /// `(row, column)`: the cell above row 0 is row `height - 1`, the
    /// cell left of column 0 is column `width - 1`, and so on.
    pub fn live_neighbor_count(&self, row: u32, column: u32) -> (count: u8)
        requires
            self.wf(),
            row < self.spec_height(),
            column < self.spec_width(),
        ensures
            count == neighbor_count(
                self@,
                self.spec_width() as int,
                self.spec_height() as int,
                row as int,
                column as int,
            ),
            count <= 8,
    {
        let up: u32 = if row == 0 {
            self.height - 1
        } else {
            row - 1
        };
        let down: u32 = if row + 1 == self.height {
            0
        } else {
            row + 1
        };
        let left: u32 = if column == 0 {
            self.width - 1
        } else {
            column - 1
        };
        let right: u32 = if column + 1 == self.width {
            0
        } else {
            column + 1
        };
        let mut count: u8 = self.cell_value(up, left);
        count = count + self.cell_value(up, column);
        count = count + self.cell_value(up, right);
        count = count + self.cell_value(row, left);
        count = count + self.cell_value(row, right);
        count = count + self.cell_value(down, left);
        count = count + self.cell_value(down, column);
        count = count + self.cell_value(down, right);
        count
    }

    /// Advance the grid by one generation: every cell is replaced by the
    /// transition of its current state under its current live-neighbor
    /// count, all counts read from the generation before the call. The
    /// new buffer is built in full and swapped in at the end, so no cell
    /// of the new generation is ever computed from a partially updated
    /// grid.
    #[verifier::loop_isolation(false)]
    pub fn tick(&mut self)
        requires
            old(self).wf(),
        ensures
            final(self).wf(),
            final(self).spec_width() == old(self).spec_width(),
            final(self).spec_height() == old(self).spec_height(),
            final(self)@ == step(
                old(self)@,
                old(self).spec_width() as int,
                old(self).spec_height() as int,
            ),
            forall|row: int, col: int|
                0 <= row < old(self).spec_height() && 0 <= col < old(self).spec_width()
                    ==> final(self)@[row * old(self).spec_width() as int + col] == next_cell(
                    cell_at(old(self)@, old(self).spec_width() as int, row, col),
                    #[trigger] neighbor_count(
                        old(self)@,
                        old(self).spec_width() as int,
                        old(self).spec_height() as int,
                        row,
                        col,
                    ),
                ),
    {
        let w = self.width;
        let h = self.height;
        let ghost g: Seq<Cell> = self.cells@;
        let mut next: Vec<Cell> = Vec::new();
        let mut row: u32 = 0;
        while row < h
            invariant
                row <= h,
                next@.len() == row as int * w as int,
                forall|rr: int, cc: int|
                    0 <= rr < row as int && 0 <= cc < w as int ==> next@[rr * w as int + cc]
                        == next_cell(
                        cell_at(g, w as int, rr, cc),
                        #[trigger] neighbor_count(g, w as int, h as int, rr, cc),
                    ),
            decreases h - row,
        {
            let mut col: u32 = 0;
            while col < w
                invariant
                    col <= w,
                    row < h,
                    next@.len() == row as int * w as int + col as int,
                    forall|rr: int, cc: int|
                        0 <= rr && 0 <= cc < w as int && (rr < row as int || (rr == row as int
                            && cc < col as int)) ==> next@[rr * w as int + cc] == next_cell(
                            cell_at(g, w as int, rr, cc),
                            #[trigger] neighbor_count(g, w as int, h as int, rr, cc),
                        ),
                decreases w - col,
            {
                let i = self.get_index(row, col);
                let count = self.live_neighbor_count(row, col);
                let cur = self.cells[i];
                next.push(advance_cell(cur, count));
                proof {
                    assert forall|rr: int, cc: int|
                        0 <= rr && 0 <= cc < w as int && (rr < row as int || (rr == row as int
                            && cc < col as int + 1)) implies next@[rr * w as int + cc]
                        == next_cell(
                        cell_at(g, w as int, rr, cc),
                        #[trigger] neighbor_count(g, w as int, h as int, rr, cc),
                    ) by {
                        if rr < row as int || cc < col as int {
                            lemma_lex_index(rr, cc, row as int, col as int, w as int);
                        }
                    }
                }
                col += 1;
            }
            proof {
                assert((row as int + 1) * (w as int) == row as int * w as int + w as int)
                    by (nonlinear_arith);
            }
            row += 1;
        }
        proof {
            assert((h as int) * (w as int) == (w as int) * (h as int)) by (nonlinear_arith);
            lemma_step_pointwise(g, w as int, h as int, next@);
        }
        self.cells = next;
        proof {
            assert forall|row: int, col: int|
                0 <= row < old(self).spec_height() && 0 <= col < old(self).spec_width()
                    implies self@[row * old(self).spec_width() as int + col] == next_cell(
                cell_at(old(self)@, old(self).spec_width() as int, row, col),
                #[trigger] neighbor_count(
                    old(self)@,
                    old(self).spec_width() as int,
                    old(self).spec_height() as int,
                    row,
                    col,
                ),
            ) by {
                lemma_step_at(g, w as int, h as int, row, col);
            }
        }
    }

    /// The grid as text: one line per row, one glyph per cell, each line
    /// newline-terminated.
    #[verifier::loop_isolation(false)]
    pub fn render(&self) -> (text: String)
        requires
            self.wf(),
        ensures
            text@ == rendered(self@, self.spec_width() as int, self.spec_height() as int),
    {
        let mut text = String::new();
        assert(text@ =~= rendered(self@, self.spec_width() as int, 0));
        let mut row: u32 = 0;
        while row < self.height
            invariant
                row <= self.spec_height(),
                text@ == rendered(self@, self.spec_width() as int, row as int),
            decreases self.spec_height() - row,
        {
            let mut col: u32 = 0;
            assert(text@ =~= rendered(self@, self.spec_width() as int, row as int) + rendered_row(
                self@,
                self.spec_width() as int,
                row as int,
                0,
            ));
            while col < self.width
                invariant
                    col <= self.spec_width(),
                    row < self.spec_height(),
                    text@ == rendered(self@, self.spec_width() as int, row as int) + rendered_row(
                        self@,
                        self.spec_width() as int,
                        row as int,
                        col as int,
                    ),
                decreases self.spec_width() - col,
            {
                let i = self.get_index(row, col);
                if self.cells[i] == Cell::Alive {
                    text.append("◼");
                } else {
                    text.append("◻");
                }
                proof {
                    assert(text@ =~= rendered(self@, self.spec_width() as int, row as int)
                        + rendered_row(
                        self@,
                        self.spec_width() as int,
                        row as int,
                        col as int + 1,
                    ));
                }
                col += 1;
            }
            text.append("\n");
            proof {
                assert(text@ =~= rendered(self@, self.spec_width() as int, row as int + 1));
            }
            row += 1;
        }
        text
    }
}

} // verus!
