//! One step of the automaton: the whole next generation, computed from a
//! snapshot of the current one and one random draw per cell.

use vstd::prelude::*;
use rand::rngs::StdRng;
use rand::Rng;
use crate::grid::{all_off, cell, cells_of, is_torus, lemma_cell_in_range, Cells, Grid};
use crate::neighborhood::{moore_count, semitone_count, third_interval_count};
use crate::rule::{
    lemma_no_chance_needs_zero_draw, lemma_survival_values, next_cell, next_cell_state,
    survival_quarters, unit_draw, Rule,
};

verus! {

/// The seedable generator of the `rand` crate, which the step draws from.
#[verifier::external_type_specification]
#[verifier::external_body]
pub struct ExStdRng(rand::rngs::StdRng);

/// The generation after `g` under `rule`, where the cell at `(r, c)` uses
/// the draw `draws[r * C + c]`: the draws are used up row by row.
pub open spec fn next_generation(g: Cells, rule: Rule, draws: Seq<u64>) -> Cells {
    Seq::new(
        g.len(),
        |r: int|
            Seq::new(g[0].len(), |c: int| next_cell(g, rule, r, c, draws[r * g[0].len() + c])),
    )
}

/// Whether `next` can follow `g` under `rule`: whether some draws, one per
/// cell, lead from `g` to `next`.
pub open spec fn can_follow(g: Cells, rule: Rule, next: Cells) -> bool {
    exists|draws: Seq<u64>|
        draws.len() == g.len() * g[0].len() && next == #[trigger] next_generation(g, rule, draws)
}

/// The next random word of `rng`, by `rand::Rng::gen::<u64>`, which for a
/// `StdRng` is the next 64 bits of its stream. The word depends on the state
/// of the generator, so nothing is claimed about it.
#[verifier::external_body]
fn draw_word(rng: &mut StdRng) -> (word: u64) {
    rng.gen()
}

/// Draws `count` random words from `rng`, in order.
pub fn draw_words(rng: &mut StdRng, count: usize) -> (words: Vec<u64>)
    ensures
        words@.len() == count,
{
    let mut words: Vec<u64> = Vec::new();
    let mut k: usize = 0;
    while k < count
        invariant
            k <= count,
            words@.len() == k,
        decreases count - k,
    {
        let word = draw_word(rng);
        words.push(word);
        k += 1;
    }
    words
}

/// The position of the cell `(r, c)` in a row-by-row walk of a grid with
/// `rows` rows of `cols` cells lies inside the walk.
proof fn lemma_walk_position(r: int, c: int, rows: int, cols: int)
    by (nonlinear_arith)
    requires
        0 <= r < rows,
        0 <= c < cols,
    ensures
        0 <= r * cols + c < rows * cols,
        (r + 1) * cols == r * cols + cols,
{
}

/// The generation after `cells` under `rule`, where the cell at `(r, c)`
/// uses the draw `draws[r * C + c]`.
///
/// Returns `None` exactly when `draws` does not hold one draw per cell.
pub fn advance_with_draws(cells: &Grid, rule: &Rule, draws: &Vec<u64>) -> (made: Option<Grid>)
    requires
        cells.wf(),
    ensures
        made is Some <==> draws@.len() == cells.spec_rows() * cells.spec_cols(),
        made matches Some(next) ==> next.wf() && next.spec_rows() == cells.spec_rows()
            && next.spec_cols() == cells.spec_cols() && next@ == next_generation(
            cells@,
            *rule,
            draws@,
        ),
{
    let rows = cells.rows();
    let cols = cells.cols();
    if draws.len() != rows * cols {
        return None;
    }
    let ghost target = next_generation(cells@, *rule, draws@);
    let mut table: Vec<Vec<bool>> = Vec::new();
    let mut i: usize = 0;
    let mut k: usize = 0;
    while i < rows
        invariant
            cells.wf(),
            rows == cells.spec_rows(),
            cols == cells.spec_cols(),
            draws@.len() == rows * cols,
            target == next_generation(cells@, *rule, draws@),
            i <= rows,
            k == i * cols,
            table@.len() == i,
            forall|r: int| 0 <= r < i ==> (#[trigger] table@[r])@ == target[r],
        decreases rows - i,
    {
        let mut line: Vec<bool> = Vec::new();
        let mut j: usize = 0;
        while j < cols
            invariant
                cells.wf(),
                rows == cells.spec_rows(),
                cols == cells.spec_cols(),
                draws@.len() == rows * cols,
                target == next_generation(cells@, *rule, draws@),
                i < rows,
                j <= cols,
                k == i * cols + j,
                line@.len() == j,
                forall|c: int| 0 <= c < j ==> (#[trigger] line@[c]) == target[i as int][c],
            decreases cols - j,
        {
            proof {
                lemma_walk_position(i as int, j as int, rows as int, cols as int);
            }
            let on = next_cell_state(cells, rule, i, j, draws[k]);
            line.push(on);
            j += 1;
            k += 1;
        }
        proof {
            lemma_walk_position(i as int, 0, rows as int, cols as int);
            assert(line@ =~= target[i as int]);
        }
        table.push(line);
        i += 1;
    }
    proof {
        assert(cells_of(table) =~= target);
        assert(is_torus(target));
    }
    Some(Grid::from_table(table))
}

/// The generation after `cells` under `rule`, with one draw per cell taken
/// from `rng`, row by row.
///
/// Whatever is drawn, the next generation has the dimensions of this one,
/// it is the generation that [`next_generation`] gives for the words that
/// were drawn, and a cell with an active semitone neighbour or with three
/// active neighbours within a third is off.
pub fn advance_automata(cells: &Grid, rule: &Rule, rng: &mut StdRng) -> (next: Grid)
    requires
        cells.wf(),
    ensures
        next.wf(),
        next.spec_rows() == cells.spec_rows(),
        next.spec_cols() == cells.spec_cols(),
        can_follow(cells@, *rule, next@),
        forall|r: int, c: int|
            0 <= r < cells.spec_rows() && 0 <= c < cells.spec_cols() && semitone_count(
                cells@,
                r,
                c,
            ) >= 1 ==> !(#[trigger] next@[r][c]),
        forall|r: int, c: int|
            0 <= r < cells.spec_rows() && 0 <= c < cells.spec_cols() && third_interval_count(
                cells@,
                r,
                c,
            ) >= 3 ==> !(#[trigger] next@[r][c]),
{
    let count = cells.rows() * cells.cols();
    let draws = draw_words(rng, count);
    let made = advance_with_draws(cells, rule, &draws);
    let next = made.unwrap();
    assert(next@ == next_generation(cells@, *rule, draws@));
    next
}

/// A step keeps the dimensions of the grid, whatever is drawn.
pub proof fn lemma_step_keeps_dimensions(g: Cells, rule: Rule, draws: Seq<u64>)
    requires
        is_torus(g),
    ensures
        is_torus(next_generation(g, rule, draws)),
        next_generation(g, rule, draws).len() == g.len(),
        next_generation(g, rule, draws)[0].len() == g[0].len(),
{
}

/// A cell with an active semitone neighbour is off in the next generation,
/// whatever is drawn and whatever the rule's damping and bias are.
pub proof fn lemma_semitone_neighbor_forces_off(
    g: Cells,
    rule: Rule,
    draws: Seq<u64>,
    r: int,
    c: int,
)
    requires
        is_torus(g),
        0 <= r < g.len(),
        0 <= c < g[0].len(),
        semitone_count(g, r, c) >= 1,
    ensures
        !next_generation(g, rule, draws)[r][c],
{
}

/// A cell with three or more active neighbours within a third is off in the
/// next generation, whatever is drawn and whatever the rule's damping and
/// bias are.
pub proof fn lemma_crowded_third_forces_off(
    g: Cells,
    rule: Rule,
    draws: Seq<u64>,
    r: int,
    c: int,
)
    requires
        is_torus(g),
        0 <= r < g.len(),
        0 <= c < g[0].len(),
        third_interval_count(g, r, c) >= 3,
    ensures
        !next_generation(g, rule, draws)[r][c],
{
}

/// A cell with no active Moore neighbour, or with four or more, has a base
/// survival probability of zero. It is off in the next generation unless its
/// draw is exactly zero, the one draw that a probability of zero still
/// reaches.
pub proof fn lemma_starved_or_crowded_cell_decays(
    g: Cells,
    rule: Rule,
    draws: Seq<u64>,
    r: int,
    c: int,
)
    requires
        is_torus(g),
        rule.wf(),
        0 <= r < g.len(),
        0 <= c < g[0].len(),
        moore_count(g, r, c) == 0 || moore_count(g, r, c) >= 4,
    ensures
        survival_quarters(moore_count(g, r, c)) == 0,
        unit_draw(draws[r * g[0].len() + c]) > 0 ==> !next_generation(g, rule, draws)[r][c],
{
    let n = moore_count(g, r, c);
    let word = draws[r * g[0].len() + c];
    lemma_survival_values(n);
    lemma_no_chance_needs_zero_draw(rule, n, c, word);
}

/// The generation without an active cell is a fixed point of the step, as
/// long as no draw is exactly zero.
pub proof fn lemma_all_off_is_fixed_point(rows: nat, cols: nat, rule: Rule, draws: Seq<u64>)
    requires
        is_torus(all_off(rows, cols)),
        rule.wf(),
        forall|k: int| 0 <= k < rows * cols ==> unit_draw(#[trigger] draws[k]) > 0,
    ensures
        next_generation(all_off(rows, cols), rule, draws) == all_off(rows, cols),
{
    let g = all_off(rows, cols);
    let next = next_generation(g, rule, draws);
    assert forall|r: int, c: int| 0 <= r < rows && 0 <= c < cols implies !(#[trigger] next[r][c]) by {
        lemma_all_off_has_no_neighbors(rows, cols, r, c);
        lemma_walk_position(r, c, rows as int, cols as int);
        lemma_starved_or_crowded_cell_decays(g, rule, draws, r, c);
    }
    assert(next =~~= g);
}

/// In the generation without an active cell every Moore count is zero.
pub proof fn lemma_all_off_has_no_neighbors(rows: nat, cols: nat, r: int, c: int)
    requires
        is_torus(all_off(rows, cols)),
    ensures
        moore_count(all_off(rows, cols), r, c) == 0,
{
    let g = all_off(rows, cols);
    assert forall|i: int, j: int| !cell(g, i, j) by {
        lemma_cell_in_range(g, i, j);
    }
}

} // verus!
