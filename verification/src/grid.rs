//! The grid of note cells: `R` rows of pitch classes by `C` columns of beats,
//! closed on itself in both directions.

use vstd::prelude::*;
use crate::config::ConfigError;
use crate::torus::{lemma_wrap, wrap, wrap_index};

verus! {

/// One generation as a mathematical value: row by row, `true` for an active
/// cell.
pub type Cells = Seq<Seq<bool>>;

/// A generation has at least one row and one column, every row has the same
/// length, and its cells can be counted in a `usize`.
pub open spec fn is_torus(g: Cells) -> bool {
    &&& g.len() > 0
    &&& g[0].len() > 0
    &&& forall|r: int| 0 <= r < g.len() ==> (#[trigger] g[r]).len() == g[0].len()
    &&& g.len() * g[0].len() <= usize::MAX
}

/// The cell that the integer coordinates `(r, c)` denote; each coordinate
/// wraps around its own axis, so this is defined for all integers.
pub open spec fn cell(g: Cells, r: int, c: int) -> bool {
    g[wrap(r, g.len() as int)][wrap(c, g[0].len() as int)]
}

/// `1` where the cell at `(r, c)` is active, `0` where it is not.
pub open spec fn active(g: Cells, r: int, c: int) -> int {
    if cell(g, r, c) {
        1
    } else {
        0
    }
}

/// The generation of `rows` by `cols` cells in which no cell is active.
pub open spec fn all_off(rows: nat, cols: nat) -> Cells {
    Seq::new(rows, |r: int| Seq::new(cols, |c: int| false))
}

/// The generation `g` with the cell at `(r, c)` switched on or off and every
/// other cell as it was.
pub open spec fn with_cell(g: Cells, r: int, c: int, on: bool) -> Cells {
    let row = wrap(r, g.len() as int);
    let col = wrap(c, g[0].len() as int);
    g.update(row, g[row].update(col, on))
}

/// Coordinates always denote a cell inside a well-formed generation.
pub proof fn lemma_cell_in_range(g: Cells, r: int, c: int)
    requires
        is_torus(g),
    ensures
        0 <= wrap(r, g.len() as int) < g.len(),
        0 <= wrap(c, g[0].len() as int) < g[wrap(r, g.len() as int)].len(),
        0 <= r < g.len() && 0 <= c < g[0].len() ==> cell(g, r, c) == g[r][c],
{
    lemma_wrap(r, g.len() as int);
    lemma_wrap(c, g[0].len() as int);
}

/// The generation that a table of rows holds.
pub open spec fn cells_of(table: Vec<Vec<bool>>) -> Cells {
    Seq::new(table@.len(), |r: int| table@[r]@)
}

/// The current generation of the sequencer.
pub struct Grid {
    cells: Vec<Vec<bool>>,
}

impl View for Grid {
    type V = Cells;

    closed spec fn view(&self) -> Cells {
        cells_of(self.cells)
    }
}

impl Grid {
    /// The invariant of every grid that the library hands out.
    pub open spec fn wf(&self) -> bool {
        is_torus(self@)
    }

    /// The number of rows, as a mathematical value.
    pub open spec fn spec_rows(&self) -> nat {
        self@.len()
    }

    /// The number of columns, as a mathematical value.
    pub open spec fn spec_cols(&self) -> nat {
        self@[0].len()
    }

    /// A grid of `rows` by `cols` cells, none of them active.
    ///
    /// Refused exactly when a dimension is zero or the number of cells does
    /// not fit in a `usize`.
    pub fn new(rows: usize, cols: usize) -> (made: Result<Grid, ConfigError>)
        ensures
            made is Ok <==> rows > 0 && cols > 0 && rows * cols <= usize::MAX,
            made matches Ok(grid) ==> grid.wf() && grid@ == all_off(rows as nat, cols as nat),
            made matches Err(why) ==> why == ConfigError::InvalidDimensions,
    {
        if rows == 0 || cols == 0 || rows.checked_mul(cols).is_none() {
            return Err(ConfigError::InvalidDimensions);
        }
        let mut cells: Vec<Vec<bool>> = Vec::new();
        let mut r: usize = 0;
        while r < rows
            invariant
                r <= rows,
                cells@.len() == r,
                forall|i: int| 0 <= i < r ==> (#[trigger] cells@[i])@ == Seq::new(
                    cols as nat,
                    |c: int| false,
                ),
            decreases rows - r,
        {
            let mut row: Vec<bool> = Vec::new();
            let mut c: usize = 0;
            while c < cols
                invariant
                    c <= cols,
                    row@.len() == c,
                    forall|j: int| 0 <= j < c ==> !(#[trigger] row@[j]),
                decreases cols - c,
            {
                row.push(false);
                c += 1;
            }
            assert(row@ =~= Seq::new(cols as nat, |c: int| false));
            cells.push(row);
            r += 1;
        }
        let grid = Grid { cells };
        assert(grid@ =~= all_off(rows as nat, cols as nat));
        Ok(grid)
    }

    /// The grid that holds the rows of `table`, which form a torus.
    pub(crate) fn from_table(table: Vec<Vec<bool>>) -> (grid: Grid)
        requires
            is_torus(cells_of(table)),
        ensures
            grid.wf(),
            grid@ == cells_of(table),
    {
        Grid { cells: table }
    }

    /// The grid that holds the rows of `table`.
    ///
    /// Refused exactly when there is no row, the first row is empty, the
    /// rows differ in length, or the cells cannot be counted in a `usize`.
    pub fn from_rows(table: Vec<Vec<bool>>) -> (made: Result<Grid, ConfigError>)
        ensures
            made is Ok <==> is_torus(cells_of(table)),
            made matches Ok(grid) ==> grid.wf() && grid@ == cells_of(table),
            made matches Err(why) ==> why == ConfigError::InvalidDimensions,
    {
        let rows = table.len();
        if rows == 0 {
            return Err(ConfigError::InvalidDimensions);
        }
        let cols = table[0].len();
        assert(cells_of(table)[0] == table@[0]@);
        if cols == 0 || rows.checked_mul(cols).is_none() {
            return Err(ConfigError::InvalidDimensions);
        }
        let mut r: usize = 1;
        while r < rows
            invariant
                1 <= r <= rows,
                rows == table@.len(),
                cols == table@[0]@.len(),
                forall|i: int| 0 <= i < r ==> (#[trigger] cells_of(table)[i]).len() == cols,
            decreases rows - r,
        {
            if table[r].len() != cols {
                assert(cells_of(table)[r as int] == table@[r as int]@);
                return Err(ConfigError::InvalidDimensions);
            }
            assert(cells_of(table)[r as int] == table@[r as int]@);
            r += 1;
        }
        Ok(Grid::from_table(table))
    }

    /// The number of rows.
    pub fn rows(&self) -> (rows: usize)
        requires
            self.wf(),
        ensures
            rows == self.spec_rows(),
            rows > 0,
    {
        self.cells.len()
    }

    /// The number of columns.
    pub fn cols(&self) -> (cols: usize)
        requires
            self.wf(),
        ensures
            cols == self.spec_cols(),
            cols > 0,
    {
        self.cells[0].len()
    }

    /// Whether the cell at `(row, col)` is active. Indexing is total: each
    /// coordinate wraps around its axis.
    pub fn get(&self, row: usize, col: usize) -> (on: bool)
        requires
            self.wf(),
        ensures
            on == cell(self@, row as int, col as int),
    {
        let r = wrap_index(row, self.cells.len());
        assert(self@[r as int] == self.cells@[r as int]@);
        let c = wrap_index(col, self.cells[0].len());
        self.cells[r][c]
    }

    /// Switches the cell at `(row, col)` on or off and leaves every other
    /// cell as it was. Each coordinate wraps around its axis. This is for
    /// seeding a grid before the clock starts.
    pub fn set(&mut self, row: usize, col: usize, on: bool)
        requires
            old(self).wf(),
        ensures
            final(self).wf(),
            final(self)@ == with_cell(old(self)@, row as int, col as int, on),
    {
        let r = wrap_index(row, self.cells.len());
        assert(self@[r as int] == self.cells@[r as int]@);
        assert(self@[0] == self.cells@[0]@);
        let c = wrap_index(col, self.cells[0].len());
        let ghost before = self@;
        self.cells[r][c] = on;
        assert(self@ =~= before.update(r as int, before[r as int].update(c as int, on)));
        assert forall|i: int| 0 <= i < self@.len() implies (#[trigger] self@[i]).len()
            == self@[0].len() by {
            assert(before[i].len() == before[0].len());
        }
    }

    /// Replaces the whole generation by `next` in one step, provided `next`
    /// has this grid's dimensions; otherwise the grid stays as it is. Says
    /// whether the generation was replaced.
    pub fn set_generation(&mut self, next: Grid) -> (replaced: bool)
        requires
            old(self).wf(),
            next.wf(),
        ensures
            final(self).wf(),
            replaced <==> next.spec_rows() == old(self).spec_rows() && next.spec_cols() == old(
                self,
            ).spec_cols(),
            replaced ==> final(self)@ == next@,
            !replaced ==> final(self)@ == old(self)@,
    {
        if next.rows() == self.rows() && next.cols() == self.cols() {
            *self = next;
            true
        } else {
            false
        }
    }
}

} // verus!
