use metronome::fretboard_notes::{scale_note_marks, NoteKind, NoteMark, FRET_POSITIONS};
use metronome::scale_data::all_families;

#[test]
fn c_major_on_the_low_e_string() {
    let families = all_families();
    let ionian = &families[0].scales[0];
    let marks = scale_note_marks(0, ionian, None);
    assert_eq!(marks.len(), 6 * FRET_POSITIONS);
    // open E is the third degree, F the fourth, F sharp is not in the scale
    assert_eq!(marks[0], Some(NoteMark { degree: 2, kind: NoteKind::Tone }));
    assert_eq!(marks[1], Some(NoteMark { degree: 3, kind: NoteKind::Tone }));
    assert_eq!(marks[2], None);
    // the eighth fret is C, the root
    assert_eq!(marks[8], Some(NoteMark { degree: 0, kind: NoteKind::Root }));
    // the A string's third fret is C too
    assert_eq!(marks[FRET_POSITIONS + 3], Some(NoteMark { degree: 0, kind: NoteKind::Root }));
}

#[test]
fn notes_outside_the_pentatonic_pass() {
    let families = all_families();
    let ionian = &families[0].scales[0];
    let pentatonic = ionian.pentatonic_variants[0].clone();
    let marks = scale_note_marks(0, ionian, Some(&pentatonic));
    // the first subset leaves out the second degree (D, low E string fret 10)
    assert_eq!(marks[10], Some(NoteMark { degree: 1, kind: NoteKind::Passing }));
    assert_eq!(marks[8], Some(NoteMark { degree: 0, kind: NoteKind::Root }));
}
