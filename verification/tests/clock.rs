use note_automata::clock::{BeatClock, Tick};
use note_automata::config::ConfigError;

#[test]
fn new_clock_starts_at_column_zero() {
    let clock = BeatClock::new(16, 20).unwrap();
    assert_eq!(clock.columns(), 16);
    assert_eq!(clock.cooldown_frames(), 20);
    assert_eq!(clock.active_column(), 0);
    assert_eq!(clock.elapsed_frames(), 0);
}

#[test]
fn new_clock_refuses_an_empty_measure() {
    assert!(matches!(BeatClock::new(0, 20), Err(ConfigError::InvalidDimensions)));
}

#[test]
fn from_tempo_rounds_the_beat_up_to_whole_ticks() {
    // 3600 / 185 = 19.46 ticks
    assert_eq!(BeatClock::from_tempo(16, 185, 60).unwrap().cooldown_frames(), 20);
    // 3600 / 120 = 30 ticks exactly
    assert_eq!(BeatClock::from_tempo(16, 120, 60).unwrap().cooldown_frames(), 30);
    assert_eq!(BeatClock::from_tempo(16, 3600, 60).unwrap().cooldown_frames(), 1);
    assert_eq!(BeatClock::from_tempo(16, 3601, 60).unwrap().cooldown_frames(), 1);
    assert_eq!(BeatClock::from_tempo(16, 1, 60).unwrap().cooldown_frames(), 3600);
    assert_eq!(BeatClock::from_tempo(16, 60, 0).unwrap().cooldown_frames(), 0);
    assert_eq!(
        BeatClock::from_tempo(16, 1, u32::MAX).unwrap().cooldown_frames(),
        60 * (u32::MAX as u64)
    );
    assert_eq!(BeatClock::from_tempo(16, u32::MAX, u32::MAX).unwrap().cooldown_frames(), 60);
    let clock = BeatClock::from_tempo(16, 185, 60).unwrap();
    assert_eq!(clock.columns(), 16);
    assert_eq!(clock.active_column(), 0);
    assert_eq!(clock.elapsed_frames(), 0);
}

#[test]
fn from_tempo_waits_while_the_beat_has_not_elapsed() {
    for bpm in 1u32..400 {
        let frames = BeatClock::from_tempo(4, bpm, 60).unwrap().cooldown_frames();
        for elapsed in 0u64..(frames + 3) {
            assert_eq!(elapsed < frames, elapsed * (bpm as u64) < 3600);
        }
    }
}

#[test]
fn from_tempo_refuses_a_tempo_of_zero() {
    assert!(matches!(BeatClock::from_tempo(16, 0, 60), Err(ConfigError::NonPositiveTempo)));
}

#[test]
fn from_tempo_refuses_an_empty_measure() {
    assert!(matches!(BeatClock::from_tempo(0, 185, 60), Err(ConfigError::InvalidDimensions)));
    assert!(matches!(BeatClock::from_tempo(0, 0, 60), Err(ConfigError::InvalidDimensions)));
}

#[test]
fn tick_waits_for_the_cooldown_and_then_fires() {
    let mut clock = BeatClock::new(16, 3).unwrap();
    for waited in 1..=3 {
        assert_eq!(clock.tick(), Tick::Wait);
        assert_eq!(clock.elapsed_frames(), waited);
        assert_eq!(clock.active_column(), 0);
    }
    assert_eq!(clock.tick(), Tick::Beat { column: 0, new_measure: false });
    assert_eq!(clock.elapsed_frames(), 0);
    assert_eq!(clock.active_column(), 1);
    assert_eq!(clock.columns(), 16);
    assert_eq!(clock.cooldown_frames(), 3);
}

#[test]
fn tick_fires_one_beat_in_every_period() {
    let cooldown = 5u64;
    let mut clock = BeatClock::new(4, cooldown).unwrap();
    let mut events = Vec::new();
    for _ in 0..60 {
        events.push(clock.tick());
    }
    for start in 0..(60 - 6) {
        let beats = events[start..start + 6].iter().filter(|e| **e != Tick::Wait).count();
        assert_eq!(beats, 1);
    }
    for (n, event) in events.iter().enumerate() {
        assert_eq!(*event != Tick::Wait, n % 6 == 5);
    }
}

#[test]
fn tick_cycles_through_the_measure() {
    let mut clock = BeatClock::new(16, 2).unwrap();
    let mut beats = Vec::new();
    let mut measures = 0;
    for _ in 0..(3 * 16) {
        match clock.tick() {
            Tick::Wait => {}
            Tick::Beat { column, new_measure } => {
                beats.push(column);
                if new_measure {
                    measures += 1;
                    assert_eq!(column, 15);
                    assert_eq!(clock.active_column(), 0);
                }
            }
        }
    }
    assert_eq!(beats, (0..16).collect::<Vec<usize>>());
    assert_eq!(measures, 1);
    assert_eq!(clock.active_column(), 0);
    assert_eq!(clock.elapsed_frames(), 0);
}

#[test]
fn tick_steps_once_per_measure_over_many_measures() {
    let mut clock = BeatClock::new(5, 1).unwrap();
    let mut beats = 0;
    let mut measures = 0;
    for _ in 0..(7 * 5 * 2) {
        if let Tick::Beat { new_measure, .. } = clock.tick() {
            beats += 1;
            if new_measure {
                measures += 1;
            }
        }
    }
    assert_eq!(beats, 35);
    assert_eq!(measures, 7);
}

#[test]
fn tick_without_cooldown_fires_every_time() {
    let mut clock = BeatClock::new(3, 0).unwrap();
    assert_eq!(clock.tick(), Tick::Beat { column: 0, new_measure: false });
    assert_eq!(clock.tick(), Tick::Beat { column: 1, new_measure: false });
    assert_eq!(clock.tick(), Tick::Beat { column: 2, new_measure: true });
    assert_eq!(clock.tick(), Tick::Beat { column: 0, new_measure: false });
}

#[test]
fn tick_on_a_measure_of_one_beat_always_ends_the_measure() {
    let mut clock = BeatClock::new(1, 1).unwrap();
    assert_eq!(clock.tick(), Tick::Wait);
    assert_eq!(clock.tick(), Tick::Beat { column: 0, new_measure: true });
    assert_eq!(clock.active_column(), 0);
    assert_eq!(clock.tick(), Tick::Wait);
    assert_eq!(clock.tick(), Tick::Beat { column: 0, new_measure: true });
}
