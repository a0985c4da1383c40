//! What a renderer needs to know about a cell.

use vstd::prelude::*;

verus! {

/// The colour in which a cell is drawn.
#[derive(Clone, Copy, Debug, PartialEq, Eq, Structural)]
pub enum NoteColor {
    /// A silent cell off the active beat.
    SteelBlue,
    /// A silent cell on the active beat.
    LightSkyBlue,
    /// An active cell off the active beat.
    Black,
    /// An active cell on the active beat: the note that sounds.
    Red,
}

/// The colour of a cell, given whether it is active and whether it lies on
/// the active beat.
pub fn compute_note_color(is_playing: bool, is_active_beat: bool) -> (color: NoteColor)
    ensures
        color == match (is_playing, is_active_beat) {
            (false, false) => NoteColor::SteelBlue,
            (false, true) => NoteColor::LightSkyBlue,
            (true, false) => NoteColor::Black,
            (true, true) => NoteColor::Red,
        },
{
    match (is_playing, is_active_beat) {
        (false, false) => NoteColor::SteelBlue,
        (false, true) => NoteColor::LightSkyBlue,
        (true, false) => NoteColor::Black,
        (true, true) => NoteColor::Red,
    }
}

} // verus!
