use note_automata::automaton::advance_automata;
use note_automata::clock::{BeatClock, Tick};
use note_automata::config::ConfigError;
use note_automata::grid::Grid;
use note_automata::rule::{BiasField, Rule};
use note_automata::sequencer::{trigger_notes, PitchMap, Sequencer};
use rand::rngs::StdRng;
use rand::SeedableRng;

fn seeded() -> Grid {
    let mut grid = Grid::new(12, 16).unwrap();
    grid.set(0, 0, true);
    grid.set(2, 0, true);
    grid.set(3, 4, true);
    grid.set(7, 6, true);
    grid.set(6, 8, true);
    grid
}

fn active_cells(grid: &Grid) -> Vec<(usize, usize)> {
    let mut cells = Vec::new();
    for row in 0..grid.rows() {
        for col in 0..grid.cols() {
            if grid.get(row, col) {
                cells.push((row, col));
            }
        }
    }
    cells
}

#[test]
fn chromatic_pitches_start_at_the_concert_pitch() {
    let pitches = PitchMap::chromatic();
    assert_eq!(pitches.len(), 12);
    let expected = [440, 466, 494, 523, 554, 587, 622, 659, 698, 740, 783, 831];
    for (row, frequency) in expected.iter().enumerate() {
        assert_eq!(pitches.frequency(row), Some(*frequency));
    }
    assert_eq!(pitches.frequency(12), None);
}

#[test]
fn pitch_map_holds_the_frequencies_it_was_given() {
    let pitches = PitchMap::new(vec![110, 220, 330]);
    assert_eq!(pitches.len(), 3);
    assert_eq!(pitches.frequency(0), Some(110));
    assert_eq!(pitches.frequency(2), Some(330));
    assert_eq!(pitches.frequency(3), None);
    assert_eq!(PitchMap::new(vec![]).len(), 0);
    assert_eq!(PitchMap::new(vec![]).frequency(0), None);
}

#[test]
fn trigger_notes_plays_the_active_rows_of_the_column() {
    let grid = seeded();
    let pitches = PitchMap::chromatic();
    assert_eq!(trigger_notes(&grid, &pitches, 0), vec![440, 494]);
    assert_eq!(trigger_notes(&grid, &pitches, 4), vec![523]);
    assert_eq!(trigger_notes(&grid, &pitches, 6), vec![659]);
    assert_eq!(trigger_notes(&grid, &pitches, 8), vec![622]);
    assert_eq!(trigger_notes(&grid, &pitches, 1), vec![]);
    assert_eq!(trigger_notes(&grid, &pitches, 16), vec![440, 494]);
}

#[test]
fn trigger_notes_plays_a_full_column_from_the_lowest_row_up() {
    let grid = Grid::from_rows(vec![vec![true]; 12]).unwrap();
    assert_eq!(
        trigger_notes(&grid, &PitchMap::chromatic(), 0),
        vec![440, 466, 494, 523, 554, 587, 622, 659, 698, 740, 783, 831]
    );
}

#[test]
fn sequencer_refuses_parts_that_do_not_fit() {
    let rule = Rule::classic();
    assert!(matches!(
        Sequencer::new(seeded(), BeatClock::new(15, 20).unwrap(), PitchMap::chromatic(), rule),
        Err(ConfigError::DimensionMismatch)
    ));
    assert!(matches!(
        Sequencer::new(
            seeded(),
            BeatClock::new(16, 20).unwrap(),
            PitchMap::new(vec![440; 11]),
            rule
        ),
        Err(ConfigError::DimensionMismatch)
    ));
    assert!(
        Sequencer::new(seeded(), BeatClock::new(16, 20).unwrap(), PitchMap::chromatic(), rule)
            .is_ok()
    );
}

#[test]
fn update_waits_and_then_plays_the_active_column() {
    let mut rng = StdRng::seed_from_u64(5);
    let mut sequencer = Sequencer::new(
        seeded(),
        BeatClock::from_tempo(16, 185, 60).unwrap(),
        PitchMap::chromatic(),
        Rule::classic(),
    )
    .unwrap();
    for waited in 1..=20 {
        assert_eq!(sequencer.update(&mut rng), (Tick::Wait, vec![]));
        assert_eq!(sequencer.clock().elapsed_frames(), waited);
        assert_eq!(sequencer.clock().active_column(), 0);
    }
    assert_eq!(
        sequencer.update(&mut rng),
        (Tick::Beat { column: 0, new_measure: false }, vec![440, 494])
    );
    assert_eq!(sequencer.clock().active_column(), 1);
    assert_eq!(sequencer.clock().elapsed_frames(), 0);
    assert_eq!(active_cells(sequencer.cells()), active_cells(&seeded()));
}

#[test]
fn update_plays_a_measure_and_then_steps_the_automaton() {
    let mut rng = StdRng::seed_from_u64(9);
    let mut twin = StdRng::seed_from_u64(9);
    let rule = Rule::new(1, 1, BiasField::Uniform).unwrap();
    let mut sequencer =
        Sequencer::new(seeded(), BeatClock::new(16, 0).unwrap(), PitchMap::chromatic(), rule)
            .unwrap();
    let mut played = Vec::new();
    for column in 0..16 {
        let (event, notes) = sequencer.update(&mut rng);
        assert_eq!(event, Tick::Beat { column, new_measure: column == 15 });
        played.push(notes);
        if column < 15 {
            assert_eq!(active_cells(sequencer.cells()), active_cells(&seeded()));
        }
    }
    let mut expected = vec![vec![]; 16];
    expected[0] = vec![440, 494];
    expected[4] = vec![523];
    expected[6] = vec![659];
    expected[8] = vec![622];
    assert_eq!(played, expected);
    let next = advance_automata(&seeded(), &rule, &mut twin);
    assert_eq!(active_cells(sequencer.cells()), active_cells(&next));
    assert_eq!(sequencer.cells().rows(), 12);
    assert_eq!(sequencer.cells().cols(), 16);
    assert_eq!(sequencer.clock().active_column(), 0);
}

#[test]
fn update_plays_the_generation_that_was_active_when_the_beat_fired() {
    let mut rng = StdRng::seed_from_u64(2);
    let rule = Rule::new(1, 1, BiasField::Uniform).unwrap();
    let mut grid = Grid::new(3, 3).unwrap();
    grid.set(1, 2, true);
    let mut sequencer = Sequencer::new(
        grid,
        BeatClock::new(3, 0).unwrap(),
        PitchMap::new(vec![100, 200, 300]),
        rule,
    )
    .unwrap();
    assert_eq!(sequencer.update(&mut rng), (Tick::Beat { column: 0, new_measure: false }, vec![]));
    assert_eq!(sequencer.update(&mut rng), (Tick::Beat { column: 1, new_measure: false }, vec![]));
    // the beat that ends the measure still plays the old generation
    assert_eq!(
        sequencer.update(&mut rng),
        (Tick::Beat { column: 2, new_measure: true }, vec![200])
    );
    // in the new one the last column is silent: the cell had no neighbour,
    // and the cells above and below it had a semitone neighbour
    for row in 0..3 {
        assert!(!sequencer.cells().get(row, 2));
    }
    sequencer.update(&mut rng);
    sequencer.update(&mut rng);
    assert_eq!(sequencer.update(&mut rng), (Tick::Beat { column: 2, new_measure: true }, vec![]));
}

#[test]
fn update_counts_each_offset_on_a_grid_of_one_column() {
    let mut rng = StdRng::seed_from_u64(2);
    let rule = Rule::new(1, 1, BiasField::Uniform).unwrap();
    let mut grid = Grid::new(3, 1).unwrap();
    grid.set(1, 0, true);
    let mut sequencer = Sequencer::new(
        grid,
        BeatClock::new(1, 0).unwrap(),
        PitchMap::new(vec![100, 200, 300]),
        rule,
    )
    .unwrap();
    // left and right of the cell lies the cell itself: two neighbours, p = 1
    for _ in 0..4 {
        assert_eq!(
            sequencer.update(&mut rng),
            (Tick::Beat { column: 0, new_measure: true }, vec![200])
        );
        assert_eq!(active_cells(sequencer.cells()), vec![(1, 0)]);
    }
}
