//! A generative step sequencer: a toroidal grid of note cells that evolves
//! once per measure under a probabilistic cellular-automaton rule, and a
//! beat clock that scans one column per beat.
//!
//! All probabilities are exact rationals and every random decision is a
//! comparison of integers, so each rule of the automaton is stated and
//! proved over mathematical integers.

pub mod automaton;
pub mod clock;
pub mod config;
pub mod display;
pub mod grid;
pub mod neighborhood;
pub mod rule;
pub mod sequencer;
pub mod torus;
