use note_automata::display::{compute_note_color, NoteColor};

#[test]
fn note_color_tells_the_four_kinds_of_cell_apart() {
    assert_eq!(compute_note_color(false, false), NoteColor::SteelBlue);
    assert_eq!(compute_note_color(false, true), NoteColor::LightSkyBlue);
    assert_eq!(compute_note_color(true, false), NoteColor::Black);
    assert_eq!(compute_note_color(true, true), NoteColor::Red);
}
