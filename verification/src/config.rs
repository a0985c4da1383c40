//! What can be wrong with a configuration.

use vstd::prelude::*;

verus! {

/// Why a configuration was refused. Each constructor of the library says
/// exactly on which inputs it returns which of these.
#[derive(Clone, Copy, Debug, PartialEq, Eq, Structural)]
pub enum ConfigError {
    /// A grid or a clock with no rows or no columns, or a grid with more
    /// cells than can be counted.
    InvalidDimensions,
    /// A tempo of zero beats per minute.
    NonPositiveTempo,
    /// A damping factor outside `(0, 1]`.
    InvalidDamping,
    /// The parts of a sequencer do not agree on the grid's dimensions.
    DimensionMismatch,
}

} // verus!
