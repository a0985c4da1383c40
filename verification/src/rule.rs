//! The rule that decides one cell of the next generation.
//!
//! A cell with `n` active Moore neighbours on beat `col` survives a draw
//! `u` from `[0, 1)` when `p >= u`, where
//! `p = max(0, (4 - (n - 2)^2) / 4) * damping * bias(col)`, unless its
//! harmonic neighbours force it off. Every factor of `p` is a rational, and
//! `u` is a 53-bit fraction, so `p >= u` is decided exactly on integers.

use vstd::prelude::*;
use crate::config::ConfigError;
use crate::grid::{Cells, Grid};
use crate::neighborhood::{
    count_active_notes_1_semitone_up_and_down, count_active_notes_3_semitones_up_and_down,
    count_neighbors, moore_count, semitone_count, third_interval_count,
};

verus! {

/// The number of equally likely draws: a draw is a fraction of `2^53`.
pub const DRAW_SCALE: u64 = 0x20_0000_0000_0000;

/// A cell with this many active semitone neighbours is forced off.
pub const SEMITONE_LIMIT: usize = 1;

/// A cell with this many active neighbours within a third is forced off.
pub const THIRD_INTERVAL_LIMIT: usize = 3;

/// How the beat of a cell weighs on its probability.
#[derive(Clone, Copy, Debug, PartialEq, Eq, Structural)]
pub enum BiasField {
    /// `bias(x) = (cos(pi x) + 1) / 4 + (cos(2 pi x) + 1) / 4` at the column
    /// index `x`.
    Rhythmic,
    /// `bias(x) = 1` on every beat.
    Uniform,
}

/// The cosine of `k` times pi, for an integer `k`.
pub open spec fn cos_pi_times(k: int) -> int {
    if k % 2 == 0 {
        1
    } else {
        -1
    }
}

/// Four times the bias of column `col`: a whole number, since the cosines of
/// whole multiples of pi are `1` and `-1`.
pub open spec fn bias_quarters(field: BiasField, col: int) -> int {
    match field {
        BiasField::Rhythmic => (cos_pi_times(col) + 1) + (cos_pi_times(2 * col) + 1),
        BiasField::Uniform => 4,
    }
}

/// Four times the base survival probability of a cell with `n` active Moore
/// neighbours: `max(0, 4 - (n - 2)^2)`.
pub open spec fn survival_quarters(n: int) -> int {
    if 4 - (n - 2) * (n - 2) > 0 {
        4 - (n - 2) * (n - 2)
    } else {
        0
    }
}

/// The draw that a 64-bit random word stands for, as a multiple of
/// `1 / DRAW_SCALE`: its upper 53 bits.
pub open spec fn unit_draw(word: u64) -> int {
    word as int / 2048
}

/// The tunable part of the rule: a damping factor in `(0, 1]`, held as a
/// fraction, and the bias field.
#[derive(Clone, Copy, Debug)]
pub struct Rule {
    damping_numerator: u32,
    damping_denominator: u32,
    bias: BiasField,
}

impl Rule {
    /// The numerator of the damping factor.
    pub closed spec fn damping_num(&self) -> int {
        self.damping_numerator as int
    }

    /// The denominator of the damping factor.
    pub closed spec fn damping_den(&self) -> int {
        self.damping_denominator as int
    }

    /// The bias field.
    pub closed spec fn bias_field(&self) -> BiasField {
        self.bias
    }

    /// The damping factor lies in `(0, 1]`.
    pub open spec fn wf(&self) -> bool {
        0 < self.damping_num() <= self.damping_den() <= u32::MAX
    }

    /// The numerator of the probability `p` of a cell with `n` active Moore
    /// neighbours on beat `col`, over the denominator [`Rule::chance_den`].
    pub open spec fn chance_num(&self, n: int, col: int) -> int {
        survival_quarters(n) * self.damping_num() * bias_quarters(self.bias_field(), col)
    }

    /// The denominator of every probability under this rule.
    pub open spec fn chance_den(&self) -> int {
        16 * self.damping_den()
    }

    /// Whether `p >= u` for a cell with `n` active Moore neighbours on beat
    /// `col` and the draw `u` that `word` stands for.
    pub open spec fn survives(&self, n: int, col: int, word: u64) -> bool {
        self.chance_num(n, col) * DRAW_SCALE >= unit_draw(word) * self.chance_den()
    }

    /// A rule with the damping factor `numerator / denominator`.
    ///
    /// Refused exactly when that factor is not in `(0, 1]`.
    pub fn new(numerator: u32, denominator: u32, bias: BiasField) -> (made: Result<
        Rule,
        ConfigError,
    >)
        ensures
            made is Ok <==> 0 < numerator <= denominator,
            made matches Ok(rule) ==> rule.wf() && rule.damping_num() == numerator
                && rule.damping_den() == denominator && rule.bias_field() == bias,
            made matches Err(why) ==> why == ConfigError::InvalidDamping,
    {
        if numerator == 0 || numerator > denominator {
            Err(ConfigError::InvalidDamping)
        } else {
            Ok(Rule { damping_numerator: numerator, damping_denominator: denominator, bias })
        }
    }

    /// The rule with a damping factor of nine tenths and the rhythmic bias.
    pub fn classic() -> (rule: Rule)
        ensures
            rule.wf(),
            rule.damping_num() == 9,
            rule.damping_den() == 10,
            rule.bias_field() == BiasField::Rhythmic,
    {
        Rule { damping_numerator: 9, damping_denominator: 10, bias: BiasField::Rhythmic }
    }

    /// The damping factor as `(numerator, denominator)`.
    pub fn damping(&self) -> (fraction: (u32, u32))
        ensures
            fraction.0 == self.damping_num(),
            fraction.1 == self.damping_den(),
    {
        (self.damping_numerator, self.damping_denominator)
    }

    /// The bias field.
    pub fn bias(&self) -> (field: BiasField)
        ensures
            field == self.bias_field(),
    {
        self.bias
    }
}

/// Whether the harmonic neighbours of `(r, c)` force the cell off: an active
/// semitone neighbour, or three active neighbours within a third.
pub open spec fn forced_off(g: Cells, r: int, c: int) -> bool {
    semitone_count(g, r, c) >= SEMITONE_LIMIT || third_interval_count(g, r, c)
        >= THIRD_INTERVAL_LIMIT
}

/// The next value of the cell at `(r, c)` of generation `g`, given the
/// random word drawn for it.
pub open spec fn next_cell(g: Cells, rule: Rule, r: int, c: int, word: u64) -> bool {
    !forced_off(g, r, c) && rule.survives(moore_count(g, r, c), c, word)
}

/// Four times the bias of column `col`.
pub fn nutrient_field(field: BiasField, col: usize) -> (quarters: u8)
    ensures
        quarters == bias_quarters(field, col as int),
        quarters == 2 || quarters == 4,
{
    match field {
        BiasField::Rhythmic => {
            if col % 2 == 0 {
                4
            } else {
                2
            }
        },
        BiasField::Uniform => 4,
    }
}

/// Four times the base survival probability of a cell with `n` active Moore
/// neighbours.
pub fn base_survival(n: usize) -> (quarters: u8)
    ensures
        quarters == survival_quarters(n as int),
        quarters <= 4,
{
    proof {
        lemma_survival_values(n as int);
    }
    if n == 1 || n == 3 {
        3
    } else if n == 2 {
        4
    } else {
        0
    }
}

/// Decides `p >= u` for a cell with `n` active Moore neighbours on beat
/// `col`, where `u` is the draw that `word` stands for.
pub fn survives_draw(rule: &Rule, n: usize, col: usize, word: u64) -> (alive: bool)
    ensures
        alive == rule.survives(n as int, col as int, word),
{
    let base: u128 = base_survival(n) as u128;
    let bias: u128 = nutrient_field(rule.bias, col) as u128;
    let numerator: u128 = rule.damping_numerator as u128;
    let denominator: u128 = rule.damping_denominator as u128;
    let draw: u128 = (word >> 11) as u128;
    assert(word >> 11 == word / 2048 && word >> 11 < 0x20_0000_0000_0000) by (bit_vector);
    assert(base * numerator * bias * 0x20_0000_0000_0000 <= 0x1_0000_0000_0000_0000_0000_0000
        && base * numerator <= 0x4_0000_0000 && base * numerator * bias <= 0x10_0000_0000)
        by (nonlinear_arith)
        requires
            base <= 4,
            bias <= 4,
            numerator <= 0xffff_ffff,
    ;
    assert(draw * 16 * denominator <= 0x1_0000_0000_0000_0000_0000_0000 && draw * 16
        <= 0x200_0000_0000_0000 && draw * 16 * denominator == draw * (16 * denominator))
        by (nonlinear_arith)
        requires
            draw < 0x20_0000_0000_0000,
            denominator <= 0xffff_ffff,
    ;
    base * numerator * bias * (DRAW_SCALE as u128) >= draw * 16 * denominator
}

/// The next value of the cell at `(i, j)`, given the random word drawn for
/// it.
pub fn next_cell_state(cells: &Grid, rule: &Rule, i: usize, j: usize, word: u64) -> (on: bool)
    requires
        cells.wf(),
    ensures
        on == next_cell(cells@, *rule, i as int, j as int, word),
{
    let neighbors = count_neighbors(cells, i, j);
    let alive = survives_draw(rule, neighbors, j, word);
    count_active_notes_1_semitone_up_and_down(cells, i, j) < SEMITONE_LIMIT
        && count_active_notes_3_semitones_up_and_down(cells, i, j) < THIRD_INTERVAL_LIMIT && alive
}

/// The bias lies in `[0, 1]` and is `1`, its maximum, on beat zero. It is an
/// even function of the beat. Over a measure with an even number of beats it
/// repeats from measure to measure and reads the same from both ends.
pub proof fn lemma_bias_periodic_and_symmetric(field: BiasField, col: int, cols: int)
    requires
        cols > 0,
        field == BiasField::Rhythmic ==> cols % 2 == 0,
    ensures
        0 <= bias_quarters(field, col) <= 4,
        bias_quarters(field, 0) == 4,
        bias_quarters(field, -col) == bias_quarters(field, col),
        bias_quarters(field, col + cols) == bias_quarters(field, col),
        bias_quarters(field, cols - col) == bias_quarters(field, col),
{
}

/// On the beats of a grid the rhythmic bias is `1` on every other beat,
/// starting with beat zero, and a half on the beats between.
pub proof fn lemma_rhythmic_bias_values(col: int)
    ensures
        col % 2 == 0 ==> bias_quarters(BiasField::Rhythmic, col) == 4,
        col % 2 != 0 ==> bias_quarters(BiasField::Rhythmic, col) == 2,
{
}

/// The base survival probability is `3/4`, `1` and `3/4` for one, two and
/// three active Moore neighbours, and zero for every other count.
pub proof fn lemma_survival_values(n: int)
    ensures
        n == 2 ==> survival_quarters(n) == 4,
        n == 1 || n == 3 ==> survival_quarters(n) == 3,
        n <= 0 || n >= 4 ==> survival_quarters(n) == 0,
        0 <= survival_quarters(n) <= 4,
{
    let square = (n - 2) * (n - 2);
    assert(square >= 0 && (n == 2 ==> square == 0) && (n == 1 || n == 3 ==> square == 1) && (n <= 0
        || n >= 4 ==> square >= 4)) by (nonlinear_arith)
        requires
            square == (n - 2) * (n - 2),
    ;
}

/// Under a probability of zero a cell survives only the draw zero.
pub proof fn lemma_no_chance_needs_zero_draw(rule: Rule, n: int, col: int, word: u64)
    requires
        rule.wf(),
        survival_quarters(n) == 0,
    ensures
        rule.survives(n, col, word) <==> unit_draw(word) == 0,
{
    let unit = unit_draw(word);
    let den = rule.damping_den();
    assert(rule.chance_num(n, col) == 0) by (nonlinear_arith)
        requires
            rule.chance_num(n, col) == survival_quarters(n) * rule.damping_num() * bias_quarters(
                rule.bias_field(),
                col,
            ),
            survival_quarters(n) == 0,
    ;
    assert(unit >= 0);
    assert((unit * (16 * den) <= 0) <==> unit == 0) by (nonlinear_arith)
        requires
            unit >= 0,
            den > 0,
    ;
}

} // verus!
