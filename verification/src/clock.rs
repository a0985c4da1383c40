//! The beat clock: it counts ticks, fires a beat when its cooldown has
//! elapsed, and moves the active column around the measure.

use vstd::prelude::*;
use vstd::arithmetic::div_mod::{
    lemma_fundamental_div_mod, lemma_fundamental_div_mod_converse, lemma_mod_bound,
    lemma_small_mod,
};
use crate::config::ConfigError;

verus! {

/// What one tick of the clock did.
#[derive(Clone, Copy, Debug, PartialEq, Eq, Structural)]
pub enum Tick {
    /// The cooldown had not elapsed; nothing is to be done.
    Wait,
    /// A beat fired on `column`, the column that was active when the tick
    /// came. `new_measure` says that the active column is back at zero, so
    /// that the automaton is due for a step.
    Beat { column: usize, new_measure: bool },
}

/// The state of a clock as a mathematical value.
pub struct ClockView {
    /// The number of columns in a measure.
    pub columns: nat,
    /// The number of ticks that the clock waits between two beats.
    pub cooldown: nat,
    /// The active column.
    pub column: nat,
    /// The number of ticks waited since the last beat.
    pub elapsed: nat,
}

impl ClockView {
    /// The active column lies in the measure, and the clock has not waited
    /// longer than its cooldown.
    pub open spec fn wf(self) -> bool {
        &&& self.columns > 0
        &&& self.column < self.columns
        &&& self.elapsed <= self.cooldown
    }

    /// Whether the next tick fires a beat.
    pub open spec fn fires(self) -> bool {
        !(self.elapsed < self.cooldown)
    }

    /// Whether the next tick fires the beat that ends a measure.
    pub open spec fn ends_measure(self) -> bool {
        self.fires() && (self.column + 1) % self.columns == 0
    }

    /// The state after one tick.
    pub open spec fn tick(self) -> ClockView {
        if self.fires() {
            ClockView {
                column: (self.column + 1) % self.columns,
                elapsed: 0,
                ..self
            }
        } else {
            ClockView { elapsed: self.elapsed + 1, ..self }
        }
    }

    /// What the next tick reports.
    pub open spec fn event(self) -> Tick {
        if self.fires() {
            Tick::Beat { column: self.column as usize, new_measure: self.ends_measure() }
        } else {
            Tick::Wait
        }
    }

    /// The state after `n` ticks.
    pub open spec fn after(self, n: nat) -> ClockView
        decreases n,
    {
        if n == 0 {
            self
        } else {
            self.after((n - 1) as nat).tick()
        }
    }

    /// The number of beats that the next `n` ticks fire.
    pub open spec fn beats_within(self, n: nat) -> nat
        decreases n,
    {
        if n == 0 {
            0
        } else {
            self.beats_within((n - 1) as nat) + if self.after((n - 1) as nat).fires() {
                1nat
            } else {
                0nat
            }
        }
    }

    /// The number of measures that the next `n` ticks end: the number of
    /// steps of the automaton that they call for.
    pub open spec fn steps_within(self, n: nat) -> nat
        decreases n,
    {
        if n == 0 {
            0
        } else {
            self.steps_within((n - 1) as nat) + if self.after((n - 1) as nat).ends_measure() {
                1nat
            } else {
                0nat
            }
        }
    }
}

/// The number of whole ticks that a clock waits between beats at
/// `beats_per_minute` and `ticks_per_second`: the beat lasts
/// `60 * ticks_per_second / beats_per_minute` ticks, rounded up.
pub open spec fn frames_per_beat(beats_per_minute: int, ticks_per_second: int) -> int {
    (60 * ticks_per_second + beats_per_minute - 1) / beats_per_minute
}

/// A count of elapsed ticks is below [`frames_per_beat`] exactly when it is
/// below the length of the beat as a real number.
pub proof fn lemma_frames_per_beat(beats_per_minute: int, ticks_per_second: int, elapsed: int)
    requires
        beats_per_minute > 0,
        ticks_per_second >= 0,
    ensures
        frames_per_beat(beats_per_minute, ticks_per_second) >= 0,
        elapsed < frames_per_beat(beats_per_minute, ticks_per_second) <==> elapsed
            * beats_per_minute < 60 * ticks_per_second,
{
    let total = 60 * ticks_per_second + beats_per_minute - 1;
    let frames = total / beats_per_minute;
    let rest = total % beats_per_minute;
    lemma_fundamental_div_mod(total, beats_per_minute);
    lemma_mod_bound(total, beats_per_minute);
    assert(frames >= 0 && (elapsed < frames <==> elapsed * beats_per_minute < 60
        * ticks_per_second)) by (nonlinear_arith)
        requires
            total == beats_per_minute * frames + rest,
            0 <= rest < beats_per_minute,
            total == 60 * ticks_per_second + beats_per_minute - 1,
            ticks_per_second >= 0,
            beats_per_minute > 0,
    ;
}

/// The beat clock of a sequencer.
#[derive(Clone, Copy, Debug)]
pub struct BeatClock {
    columns: usize,
    cooldown_frames: u64,
    active_column: usize,
    elapsed_frames: u64,
}

impl View for BeatClock {
    type V = ClockView;

    closed spec fn view(&self) -> ClockView {
        ClockView {
            columns: self.columns as nat,
            cooldown: self.cooldown_frames as nat,
            column: self.active_column as nat,
            elapsed: self.elapsed_frames as nat,
        }
    }
}

impl BeatClock {
    /// The invariant of every clock that the library hands out.
    pub open spec fn wf(&self) -> bool {
        self@.wf()
    }

    /// The state of a clock holds machine integers.
    pub proof fn lemma_view_fits(&self)
        ensures
            self@.columns <= usize::MAX,
            self@.column <= usize::MAX,
            self@.cooldown <= u64::MAX,
            self@.elapsed <= u64::MAX,
    {
    }

    /// A clock at column zero that waits `cooldown_frames` ticks between
    /// beats of a measure of `columns` beats.
    ///
    /// Refused exactly when `columns` is zero.
    pub fn new(columns: usize, cooldown_frames: u64) -> (made: Result<BeatClock, ConfigError>)
        ensures
            made is Ok <==> columns > 0,
            made matches Ok(clock) ==> clock.wf() && clock@ == (ClockView {
                columns: columns as nat,
                cooldown: cooldown_frames as nat,
                column: 0,
                elapsed: 0,
            }),
            made matches Err(why) ==> why == ConfigError::InvalidDimensions,
    {
        if columns == 0 {
            Err(ConfigError::InvalidDimensions)
        } else {
            Ok(BeatClock { columns, cooldown_frames, active_column: 0, elapsed_frames: 0 })
        }
    }

    /// A clock at column zero for a tempo of `beats_per_minute`, ticked
    /// `ticks_per_second` times a second.
    ///
    /// Refused with `InvalidDimensions` exactly when `columns` is zero, and
    /// otherwise with `NonPositiveTempo` exactly when the tempo is zero.
    pub fn from_tempo(columns: usize, beats_per_minute: u32, ticks_per_second: u32) -> (made:
        Result<BeatClock, ConfigError>)
        ensures
            made is Ok <==> columns > 0 && beats_per_minute > 0,
            made matches Ok(clock) ==> clock.wf() && clock@ == (ClockView {
                columns: columns as nat,
                cooldown: frames_per_beat(beats_per_minute as int, ticks_per_second as int) as nat,
                column: 0,
                elapsed: 0,
            }),
            made matches Err(why) ==> why == if columns == 0 {
                ConfigError::InvalidDimensions
            } else {
                ConfigError::NonPositiveTempo
            },
    {
        if columns == 0 {
            return Err(ConfigError::InvalidDimensions);
        }
        if beats_per_minute == 0 {
            return Err(ConfigError::NonPositiveTempo);
        }
        let total: u64 = 60 * (ticks_per_second as u64) + (beats_per_minute as u64) - 1;
        let cooldown_frames: u64 = total / (beats_per_minute as u64);
        proof {
            lemma_frames_per_beat(beats_per_minute as int, ticks_per_second as int, 0);
        }
        Ok(BeatClock { columns, cooldown_frames, active_column: 0, elapsed_frames: 0 })
    }

    /// The number of columns in a measure.
    pub fn columns(&self) -> (columns: usize)
        ensures
            columns == self@.columns,
    {
        self.columns
    }

    /// The number of ticks that the clock waits between two beats.
    pub fn cooldown_frames(&self) -> (cooldown: u64)
        ensures
            cooldown == self@.cooldown,
    {
        self.cooldown_frames
    }

    /// The active column.
    pub fn active_column(&self) -> (column: usize)
        ensures
            column == self@.column,
    {
        self.active_column
    }

    /// The number of ticks waited since the last beat.
    pub fn elapsed_frames(&self) -> (elapsed: u64)
        ensures
            elapsed == self@.elapsed,
    {
        self.elapsed_frames
    }

    /// Advances the clock by one tick and says what the tick did.
    ///
    /// While the cooldown has not elapsed the tick only counts. Otherwise it
    /// fires a beat on the active column, starts the count again and moves
    /// the active column one step around the measure.
    pub fn tick(&mut self) -> (event: Tick)
        requires
            old(self).wf(),
        ensures
            final(self).wf(),
            final(self)@ == old(self)@.tick(),
            event == old(self)@.event(),
    {
        if self.elapsed_frames < self.cooldown_frames {
            self.elapsed_frames += 1;
            Tick::Wait
        } else {
            let column = self.active_column;
            proof {
                if column + 1 == self.columns {
                    lemma_fundamental_div_mod_converse(
                        column + 1,
                        self.columns as int,
                        1,
                        0,
                    );
                } else {
                    lemma_small_mod((column + 1) as nat, self.columns as nat);
                }
            }
            let next = if column + 1 == self.columns {
                0
            } else {
                column + 1
            };
            self.elapsed_frames = 0;
            self.active_column = next;
            Tick::Beat { column, new_measure: next == 0 }
        }
    }
}

/// A tick keeps a clock well formed and leaves its measure and its cooldown
/// as they are.
pub proof fn lemma_tick_keeps_wf(c: ClockView)
    requires
        c.wf(),
    ensures
        c.tick().wf(),
        c.tick().columns == c.columns,
        c.tick().cooldown == c.cooldown,
{
    lemma_mod_bound((c.column + 1) as int, c.columns as int);
}

/// `a + b` ticks are `a` ticks followed by `b` ticks, for the state and for
/// the beats and the measures counted on the way.
pub proof fn lemma_ticks_add(c: ClockView, a: nat, b: nat)
    ensures
        c.after(a + b) == c.after(a).after(b),
        c.beats_within(a + b) == c.beats_within(a) + c.after(a).beats_within(b),
        c.steps_within(a + b) == c.steps_within(a) + c.after(a).steps_within(b),
    decreases b,
{
    if b > 0 {
        lemma_ticks_add(c, a, (b - 1) as nat);
        assert((a + b - 1) as nat == a + (b - 1) as nat);
    }
}

/// While its cooldown has not elapsed a clock only counts: no beat fires and
/// no measure ends.
pub proof fn lemma_waiting(c: ClockView, n: nat)
    requires
        c.wf(),
        c.elapsed + n <= c.cooldown,
    ensures
        c.after(n) == (ClockView { elapsed: c.elapsed + n, ..c }),
        c.beats_within(n) == 0,
        c.steps_within(n) == 0,
    decreases n,
{
    if n > 0 {
        lemma_waiting(c, (n - 1) as nat);
    }
}

/// Any `cooldown + 1` ticks in a row fire exactly one beat: the clock waits
/// `cooldown` ticks for each beat, and the tick after them fires it.
pub proof fn lemma_one_beat_per_period(c: ClockView)
    requires
        c.wf(),
    ensures
        c.beats_within(c.cooldown + 1) == 1,
        c.after(c.cooldown + 1).elapsed == c.elapsed,
        c.after(c.cooldown + 1).column == (c.column + 1) % c.columns,
{
    let before = (c.cooldown - c.elapsed) as nat;
    lemma_waiting(c, before);
    let due = c.after(before);
    assert(due.fires());
    assert(c.after(before + 1) == due.tick());
    assert(c.beats_within(before + 1) == 1);
    let fired = due.tick();
    lemma_tick_keeps_wf(due);
    lemma_waiting(fired, c.elapsed);
    lemma_ticks_add(c, before + 1, c.elapsed);
    assert(before + 1 + c.elapsed == c.cooldown + 1);
}

/// Moving one column on from column `x % columns` ends a measure exactly
/// when `x + 1` is a multiple of `columns`, and the measures ended so far are
/// the whole part of the quotient.
proof fn lemma_column_step(x: nat, columns: nat)
    requires
        columns > 0,
    ensures
        ((x % columns) + 1) % columns == (x + 1) % columns,
        (x + 1) / columns == x / columns + if (x + 1) % columns == 0 {
            1nat
        } else {
            0nat
        },
{
    let q = x as int / columns as int;
    let r = x as int % columns as int;
    lemma_fundamental_div_mod(x as int, columns as int);
    lemma_mod_bound(x as int, columns as int);
    if r + 1 == columns {
        assert(x + 1 == (q + 1) * columns + 0) by (nonlinear_arith)
            requires
                x == columns * q + r,
                r + 1 == columns,
        ;
        lemma_fundamental_div_mod_converse((x + 1) as int, columns as int, q + 1, 0);
        lemma_fundamental_div_mod_converse(r + 1, columns as int, 1, 0);
    } else {
        assert(x + 1 == q * columns + (r + 1)) by (nonlinear_arith)
            requires
                x == columns * q + r,
        ;
        lemma_fundamental_div_mod_converse((x + 1) as int, columns as int, q, r + 1);
        lemma_small_mod((r + 1) as nat, columns);
    }
}

/// From the moment a beat has fired, `m` periods of `cooldown + 1` ticks
/// fire exactly `m` beats, move the active column `m` steps around the
/// measure, and end a measure each time the column comes back to zero.
pub proof fn lemma_beats_and_measures(c: ClockView, m: nat)
    requires
        c.wf(),
        c.elapsed == 0,
    ensures
        c.after(m * (c.cooldown + 1)) == (ClockView {
            column: (c.column + m) % c.columns,
            ..c
        }),
        c.beats_within(m * (c.cooldown + 1)) == m,
        c.steps_within(m * (c.cooldown + 1)) == (c.column + m) / c.columns,
    decreases m,
{
    let period = c.cooldown + 1;
    if m == 0 {
        lemma_small_mod(c.column, c.columns);
        vstd::arithmetic::div_mod::lemma_basic_div(c.column as int, c.columns as int);
        assert(0 * period == 0);
    } else {
        let done = ((m - 1) * period) as nat;
        lemma_beats_and_measures(c, (m - 1) as nat);
        assert(m * period == done + period) by (nonlinear_arith)
            requires
                done == (m - 1) * period,
                m >= 1,
        ;
        let at = c.after(done);
        lemma_mod_bound((c.column + m - 1) as int, c.columns as int);
        lemma_ticks_add(c, done, period);
        lemma_one_beat_per_period(at);
        lemma_waiting(at, c.cooldown);
        let due = at.after(c.cooldown);
        assert(at.after(period) == due.tick());
        assert(at.steps_within(period) == if due.ends_measure() {
            1nat
        } else {
            0nat
        });
        lemma_column_step((c.column + m - 1) as nat, c.columns);
    }
}

/// A measure of `columns` beats brings the active column back to where it
/// was and ends exactly one measure: the automaton steps once per measure.
pub proof fn lemma_one_step_per_measure(c: ClockView)
    requires
        c.wf(),
        c.elapsed == 0,
    ensures
        c.after(c.columns * (c.cooldown + 1)) == c,
        c.beats_within(c.columns * (c.cooldown + 1)) == c.columns,
        c.steps_within(c.columns * (c.cooldown + 1)) == 1,
{
    lemma_beats_and_measures(c, c.columns);
    lemma_fundamental_div_mod_converse(
        (c.column + c.columns) as int,
        c.columns as int,
        1,
        c.column as int,
    );
}

} // verus!
