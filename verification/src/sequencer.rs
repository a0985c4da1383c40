//! The sequencer: a grid, the clock that scans it, the pitch of each row and
//! the rule of the automaton, driven one tick at a time.

use vstd::prelude::*;
use rand::rngs::StdRng;
use crate::automaton::{advance_automata, can_follow};
use crate::clock::{BeatClock, ClockView, Tick};
use crate::config::ConfigError;
use crate::grid::{cell, is_torus, Cells, Grid};
use crate::rule::Rule;

verus! {

/// The frequency of each row of the grid, from row zero up.
pub struct PitchMap {
    frequencies: Vec<usize>,
}

impl View for PitchMap {
    type V = Seq<usize>;

    closed spec fn view(&self) -> Seq<usize> {
        self.frequencies@
    }
}

/// The twelve semitones from the concert pitch up, in hertz.
pub open spec fn chromatic_scale() -> Seq<usize> {
    seq![440, 466, 494, 523, 554, 587, 622, 659, 698, 740, 783, 831]
}

impl PitchMap {
    /// The pitch map that gives row `r` the frequency `frequencies[r]`.
    pub fn new(frequencies: Vec<usize>) -> (pitches: PitchMap)
        ensures
            pitches@ == frequencies@,
    {
        PitchMap { frequencies }
    }

    /// The pitch map of the chromatic scale from the concert pitch up.
    pub fn chromatic() -> (pitches: PitchMap)
        ensures
            pitches@ == chromatic_scale(),
    {
        let mut frequencies: Vec<usize> = Vec::new();
        frequencies.push(440);
        frequencies.push(466);
        frequencies.push(494);
        frequencies.push(523);
        frequencies.push(554);
        frequencies.push(587);
        frequencies.push(622);
        frequencies.push(659);
        frequencies.push(698);
        frequencies.push(740);
        frequencies.push(783);
        frequencies.push(831);
        assert(frequencies@ =~= chromatic_scale());
        PitchMap { frequencies }
    }

    /// The number of rows that have a frequency.
    pub fn len(&self) -> (len: usize)
        ensures
            len == self@.len(),
    {
        self.frequencies.len()
    }

    /// The frequency of `row`, if the map has one for it.
    pub fn frequency(&self, row: usize) -> (frequency: Option<usize>)
        ensures
            frequency == if row < self@.len() {
                Some(self@[row as int])
            } else {
                None
            },
    {
        if row < self.frequencies.len() {
            Some(self.frequencies[row])
        } else {
            None
        }
    }
}

/// The frequencies of the active cells of column `col` among the first
/// `rows` rows of `g`, from row zero up.
pub open spec fn notes_upto(g: Cells, pitches: Seq<usize>, col: int, rows: nat) -> Seq<usize>
    decreases rows,
{
    if rows == 0 {
        Seq::empty()
    } else {
        let below = notes_upto(g, pitches, col, (rows - 1) as nat);
        if cell(g, rows - 1, col) {
            below.push(pitches[rows - 1])
        } else {
            below
        }
    }
}

/// The notes that a beat on column `col` of `g` plays: the frequency of
/// every row whose cell in that column is active, from row zero up.
pub open spec fn column_notes(g: Cells, pitches: Seq<usize>, col: int) -> Seq<usize> {
    notes_upto(g, pitches, col, g.len())
}

/// The notes that a beat on `column` plays.
pub fn trigger_notes(cells: &Grid, pitches: &PitchMap, column: usize) -> (notes: Vec<usize>)
    requires
        cells.wf(),
        pitches@.len() == cells.spec_rows(),
    ensures
        notes@ == column_notes(cells@, pitches@, column as int),
{
    let rows = cells.rows();
    let mut notes: Vec<usize> = Vec::new();
    let mut i: usize = 0;
    while i < rows
        invariant
            cells.wf(),
            rows == cells.spec_rows(),
            pitches@.len() == rows,
            i <= rows,
            notes@ == notes_upto(cells@, pitches@, column as int, i as nat),
        decreases rows - i,
    {
        if cells.get(i, column) {
            notes.push(pitches.frequencies[i]);
        }
        i += 1;
    }
    notes
}

/// The whole state of the instrument.
pub struct Sequencer {
    cells: Grid,
    clock: BeatClock,
    pitches: PitchMap,
    rule: Rule,
}

impl Sequencer {
    /// The current generation.
    pub closed spec fn spec_cells(&self) -> Cells {
        self.cells@
    }

    /// The state of the clock.
    pub closed spec fn spec_clock(&self) -> ClockView {
        self.clock@
    }

    /// The frequency of each row.
    pub closed spec fn spec_pitches(&self) -> Seq<usize> {
        self.pitches@
    }

    /// The rule of the automaton.
    pub closed spec fn spec_rule(&self) -> Rule {
        self.rule
    }

    /// The parts agree: the clock scans the columns of the grid, and every
    /// row has a frequency.
    pub open spec fn wf(&self) -> bool {
        &&& is_torus(self.spec_cells())
        &&& self.spec_clock().wf()
        &&& self.spec_clock().columns == self.spec_cells()[0].len()
        &&& self.spec_pitches().len() == self.spec_cells().len()
    }

    /// A sequencer made of its four parts.
    ///
    /// Refused exactly when the clock's measure is not as long as a row of
    /// the grid, or the pitch map does not have one frequency per row.
    pub fn new(cells: Grid, clock: BeatClock, pitches: PitchMap, rule: Rule) -> (made: Result<
        Sequencer,
        ConfigError,
    >)
        requires
            cells.wf(),
            clock.wf(),
        ensures
            made is Ok <==> clock@.columns == cells.spec_cols() && pitches@.len()
                == cells.spec_rows(),
            made matches Ok(sequencer) ==> sequencer.wf() && sequencer.spec_cells() == cells@
                && sequencer.spec_clock() == clock@ && sequencer.spec_pitches() == pitches@
                && sequencer.spec_rule() == rule,
            made matches Err(why) ==> why == ConfigError::DimensionMismatch,
    {
        if clock.columns() != cells.cols() || pitches.len() != cells.rows() {
            Err(ConfigError::DimensionMismatch)
        } else {
            Ok(Sequencer { cells, clock, pitches, rule })
        }
    }

    /// The current generation.
    pub fn cells(&self) -> (cells: &Grid)
        requires
            self.wf(),
        ensures
            cells.wf(),
            cells@ == self.spec_cells(),
    {
        &self.cells
    }

    /// The clock.
    pub fn clock(&self) -> (clock: &BeatClock)
        requires
            self.wf(),
        ensures
            clock.wf(),
            clock@ == self.spec_clock(),
    {
        &self.clock
    }

    /// Advances the sequencer by one tick. Returns what the clock did and
    /// the notes to play.
    ///
    /// While the clock waits nothing else happens. On a beat the notes are
    /// those of the column that was active when the tick came, in the
    /// generation of that moment; if the beat ends a measure the grid is
    /// then replaced by its next generation, with draws taken from `rng`.
    pub fn update(&mut self, rng: &mut StdRng) -> (played: (Tick, Vec<usize>))
        requires
            old(self).wf(),
        ensures
            final(self).wf(),
            final(self).spec_cells().len() == old(self).spec_cells().len(),
            final(self).spec_cells()[0].len() == old(self).spec_cells()[0].len(),
            final(self).spec_pitches() == old(self).spec_pitches(),
            final(self).spec_rule() == old(self).spec_rule(),
            final(self).spec_clock() == old(self).spec_clock().tick(),
            played.0 == old(self).spec_clock().event(),
            played.1@ == if old(self).spec_clock().fires() {
                column_notes(
                    old(self).spec_cells(),
                    old(self).spec_pitches(),
                    old(self).spec_clock().column as int,
                )
            } else {
                Seq::empty()
            },
            !old(self).spec_clock().ends_measure() ==> final(self).spec_cells() == old(
                self,
            ).spec_cells(),
            old(self).spec_clock().ends_measure() ==> can_follow(
                old(self).spec_cells(),
                old(self).spec_rule(),
                final(self).spec_cells(),
            ),
    {
        proof {
            self.clock.lemma_view_fits();
        }
        let event = self.clock.tick();
        match event {
            Tick::Wait => (event, Vec::new()),
            Tick::Beat { column, new_measure } => {
                let notes = trigger_notes(&self.cells, &self.pitches, column);
                if new_measure {
                    let next = advance_automata(&self.cells, &self.rule, rng);
                    self.cells.set_generation(next);
                }
                (event, notes)
            },
        }
    }
}

} // verus!
