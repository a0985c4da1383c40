//! Counting active neighbours of a cell: the eight cells around it, and the
//! cells a few semitones above and below it on the same beat.

use vstd::prelude::*;
use crate::grid::{active, cell, is_torus, Cells, Grid};
use crate::torus::{lemma_wrap, step_down, step_up, wrap};

verus! {

/// The eight offsets `(row, column)` of the Moore neighbourhood, row by row.
pub open spec fn moore_offsets() -> Seq<(int, int)> {
    seq![(-1, -1), (-1, 0), (-1, 1), (0, -1), (0, 1), (1, -1), (1, 0), (1, 1)]
}

/// The coordinates of the eight Moore neighbours of `(i, j)` on a torus of
/// `rows` by `cols` cells, in the order of [`moore_offsets`]. On a torus
/// with fewer than three rows or columns some of them coincide.
pub open spec fn moore_neighborhood(i: int, j: int, rows: int, cols: int) -> Seq<(int, int)> {
    Seq::new(
        8,
        |k: int| (wrap(i + moore_offsets()[k].0, rows), wrap(j + moore_offsets()[k].1, cols)),
    )
}

/// How many of the eight Moore offsets of `(r, c)` lead to an active cell.
/// Each offset counts once, also where two of them lead to the same cell.
pub open spec fn moore_count(g: Cells, r: int, c: int) -> int {
    active(g, r - 1, c - 1) + active(g, r - 1, c) + active(g, r - 1, c + 1) + active(g, r, c - 1)
        + active(g, r, c + 1) + active(g, r + 1, c - 1) + active(g, r + 1, c) + active(
        g,
        r + 1,
        c + 1,
    )
}

/// How many of the two cells one row away from `(r, c)`, on the same beat,
/// are active.
pub open spec fn semitone_count(g: Cells, r: int, c: int) -> int {
    active(g, r - 1, c) + active(g, r + 1, c)
}

/// How many of the six cells one to three rows away from `(r, c)`, on the
/// same beat, are active.
pub open spec fn third_interval_count(g: Cells, r: int, c: int) -> int {
    active(g, r - 1, c) + active(g, r - 2, c) + active(g, r - 3, c) + active(g, r + 1, c)
        + active(g, r + 2, c) + active(g, r + 3, c)
}

/// How many of the first `n` coordinates of `hood` denote an active cell.
pub open spec fn count_among(g: Cells, hood: Seq<(int, int)>, n: nat) -> int
    decreases n,
{
    if n == 0 {
        0
    } else {
        count_among(g, hood, (n - 1) as nat) + active(g, hood[n - 1].0, hood[n - 1].1)
    }
}

/// A coordinate that was wrapped already denotes the same cell as before.
pub proof fn lemma_active_wrapped(g: Cells, r: int, c: int)
    requires
        is_torus(g),
    ensures
        active(g, wrap(r, g.len() as int), c) == active(g, r, c),
        active(g, r, wrap(c, g[0].len() as int)) == active(g, r, c),
        active(g, wrap(r, g.len() as int), wrap(c, g[0].len() as int)) == active(g, r, c),
        0 <= active(g, r, c) <= 1,
{
    lemma_wrap(r, g.len() as int);
    lemma_wrap(c, g[0].len() as int);
    lemma_wrap(wrap(r, g.len() as int), g.len() as int);
    lemma_wrap(wrap(c, g[0].len() as int), g[0].len() as int);
}

/// Counting along the Moore neighbourhood of a cell gives its Moore count.
pub proof fn lemma_count_among_moore(g: Cells, i: int, j: int)
    requires
        is_torus(g),
    ensures
        count_among(g, moore_neighborhood(i, j, g.len() as int, g[0].len() as int), 8)
            == moore_count(g, i, j),
        0 <= moore_count(g, i, j) <= 8,
{
    let hood = moore_neighborhood(i, j, g.len() as int, g[0].len() as int);
    reveal_with_fuel(count_among, 9);
    lemma_active_wrapped(g, i - 1, j - 1);
    lemma_active_wrapped(g, i - 1, j);
    lemma_active_wrapped(g, i - 1, j + 1);
    lemma_active_wrapped(g, i, j - 1);
    lemma_active_wrapped(g, i, j + 1);
    lemma_active_wrapped(g, i + 1, j - 1);
    lemma_active_wrapped(g, i + 1, j);
    lemma_active_wrapped(g, i + 1, j + 1);
    assert(hood[0] == (wrap(i - 1, g.len() as int), wrap(j - 1, g[0].len() as int)));
    assert(hood[1] == (wrap(i - 1, g.len() as int), wrap(j + 0, g[0].len() as int)));
    assert(hood[2] == (wrap(i - 1, g.len() as int), wrap(j + 1, g[0].len() as int)));
    assert(hood[3] == (wrap(i + 0, g.len() as int), wrap(j - 1, g[0].len() as int)));
    assert(hood[4] == (wrap(i + 0, g.len() as int), wrap(j + 1, g[0].len() as int)));
    assert(hood[5] == (wrap(i + 1, g.len() as int), wrap(j - 1, g[0].len() as int)));
    assert(hood[6] == (wrap(i + 1, g.len() as int), wrap(j + 0, g[0].len() as int)));
    assert(hood[7] == (wrap(i + 1, g.len() as int), wrap(j + 1, g[0].len() as int)));
}

/// A list of grid positions as mathematical coordinates.
pub open spec fn places_of(hood: Seq<(usize, usize)>) -> Seq<(int, int)> {
    Seq::new(hood.len(), |k: int| (hood[k].0 as int, hood[k].1 as int))
}

/// The coordinates of the eight Moore neighbours of `(i, j)` on a torus of
/// `rows` by `cols` cells.
pub fn get_moore_neighborhood(i: usize, j: usize, rows: usize, cols: usize) -> (hood: [(
    usize,
    usize,
); 8])
    requires
        rows > 0,
        cols > 0,
    ensures
        places_of(hood@) == moore_neighborhood(i as int, j as int, rows as int, cols as int),
{
    let north = step_down(i, 1, rows);
    let level = step_up(i, 0, rows);
    let south = step_up(i, 1, rows);
    let west = step_down(j, 1, cols);
    let middle = step_up(j, 0, cols);
    let east = step_up(j, 1, cols);
    let hood = [
        (north, west),
        (north, middle),
        (north, east),
        (level, west),
        (level, east),
        (south, west),
        (south, middle),
        (south, east),
    ];
    assert(places_of(hood@) =~= moore_neighborhood(i as int, j as int, rows as int, cols as int));
    hood
}

/// The Moore neighbour count of the cell at `(i, j)`.
pub fn count_neighbors(cells: &Grid, i: usize, j: usize) -> (count: usize)
    requires
        cells.wf(),
    ensures
        count == moore_count(cells@, i as int, j as int),
        count <= 8,
{
    let hood = get_moore_neighborhood(i, j, cells.rows(), cells.cols());
    let mut count: usize = 0;
    let mut k: usize = 0;
    while k < 8
        invariant
            k <= 8,
            cells.wf(),
            hood@.len() == 8,
            count == count_among(cells@, places_of(hood@), k as nat),
            count <= k,
        decreases 8 - k,
    {
        let place = hood[k];
        if cells.get(place.0, place.1) {
            count += 1;
        }
        k += 1;
    }
    proof {
        lemma_count_among_moore(cells@, i as int, j as int);
    }
    count
}

/// The number of active cells within three semitones above or below the
/// cell at `(i, j)`, on the same beat.
pub fn count_active_notes_3_semitones_up_and_down(cells: &Grid, i: usize, j: usize) -> (count:
    usize)
    requires
        cells.wf(),
    ensures
        count == third_interval_count(cells@, i as int, j as int),
        count <= 6,
{
    let rows = cells.rows();
    proof {
        lemma_active_wrapped(cells@, i - 1, j as int);
        lemma_active_wrapped(cells@, i - 2, j as int);
        lemma_active_wrapped(cells@, i - 3, j as int);
        lemma_active_wrapped(cells@, i + 1, j as int);
        lemma_active_wrapped(cells@, i + 2, j as int);
        lemma_active_wrapped(cells@, i + 3, j as int);
    }
    let mut count: usize = 0;
    if cells.get(step_down(i, 1, rows), j) {
        count += 1;
    }
    if cells.get(step_down(i, 2, rows), j) {
        count += 1;
    }
    if cells.get(step_down(i, 3, rows), j) {
        count += 1;
    }
    if cells.get(step_up(i, 1, rows), j) {
        count += 1;
    }
    if cells.get(step_up(i, 2, rows), j) {
        count += 1;
    }
    if cells.get(step_up(i, 3, rows), j) {
        count += 1;
    }
    count
}

/// The number of active cells one semitone above or below the cell at
/// `(i, j)`, on the same beat.
pub fn count_active_notes_1_semitone_up_and_down(cells: &Grid, i: usize, j: usize) -> (count:
    usize)
    requires
        cells.wf(),
    ensures
        count == semitone_count(cells@, i as int, j as int),
        count <= 2,
{
    let rows = cells.rows();
    proof {
        lemma_active_wrapped(cells@, i - 1, j as int);
        lemma_active_wrapped(cells@, i + 1, j as int);
    }
    let mut count: usize = 0;
    if cells.get(step_down(i, 1, rows), j) {
        count += 1;
    }
    if cells.get(step_up(i, 1, rows), j) {
        count += 1;
    }
    count
}

} // verus!
