use metronome::chord_builder::chord_structures;
use metronome::scale_chords::{degree_line, inversion_label, pentatonic_label, scale_title, ChordControls, ChordPick};
use metronome::scale_data::all_families;

#[test]
fn a_tap_picks_the_degree_under_the_finger() {
    let mut pick = ChordPick::new();
    pick.select_chord(1);
    // low E string, first fret: F, the fourth degree of C major
    assert!(pick.tap_fret(0, 1));
    assert_eq!(pick.chord_degree, 3);
    assert_eq!(pick.chord_fret, 1);
    assert_eq!(pick.inversion, 0);
}

#[test]
fn a_second_tap_on_the_same_fret_drops_the_chord() {
    let mut pick = ChordPick::new();
    pick.select_chord(1);
    pick.tap_fret(0, 1);
    assert!(pick.tap_fret(0, 1));
    assert_eq!(pick.chord_degree, -1);
    assert_eq!(pick.chord_fret, -1);
    // the same note on another string picks it again
    assert!(pick.tap_fret(1, 8));
    assert_eq!(pick.chord_degree, 3);
    assert_eq!(pick.chord_fret, 8);
}

#[test]
fn taps_outside_the_scale_or_without_a_chord_do_nothing() {
    let mut pick = ChordPick::new();
    assert!(!pick.tap_fret(0, 1));
    assert_eq!(pick.chord_degree, -1);
    pick.select_chord(1);
    // F sharp is not in C major
    assert!(!pick.tap_fret(0, 2));
    assert_eq!(pick.chord_degree, -1);
}

#[test]
fn scales_without_seven_notes_have_no_chords() {
    let mut pick = ChordPick::new();
    pick.select_scale(0, 4, 0);
    pick.select_chord(1);
    assert!(!pick.tap_fret(0, 1));
    assert_eq!(pick.chord_degree, -1);
}

#[test]
fn the_chord_follows_the_tapped_degree() {
    let families = all_families();
    let structures = chord_structures();
    let mut pick = ChordPick::new();
    pick.select_chord(1);
    assert!(pick.chord(&families, &structures).is_none());
    pick.tap_fret(0, 1);
    let (voicing, symbol) = pick.chord(&families, &structures).expect("a chord is chosen");
    assert_eq!(symbol, "F");
    assert!(!voicing.is_empty());
    assert!(voicing.iter().any(|note| note.label == "R"));
}

#[test]
fn inversions_cycle_through_the_chord_tones() {
    let mut pick = ChordPick::new();
    pick.select_chord(1);
    assert!(!pick.cycle_inversion());
    pick.tap_fret(0, 1);
    let mut seen = Vec::new();
    for _ in 0..3 {
        assert!(pick.cycle_inversion());
        seen.push(pick.inversion);
    }
    assert_eq!(seen, vec![1, 2, 0]);
}

#[test]
fn pentatonics_cycle_and_come_back_to_none() {
    let mut pick = ChordPick::new();
    assert_eq!(pick.cycle_pentatonic(), Some(1));
    assert_eq!(pick.cycle_pentatonic(), Some(2));
    assert_eq!(pick.cycle_pentatonic(), Some(0));
    pick.select_scale(0, 4, 0);
    assert_eq!(pick.cycle_pentatonic(), None);
}

#[test]
fn changing_scale_drops_a_missing_pentatonic() {
    let mut pick = ChordPick::new();
    pick.cycle_pentatonic();
    pick.cycle_pentatonic();
    pick.select_scale(2, 0, 1);
    assert_eq!(pick.pentatonic_variant, 2);
    pick.select_scale(2, 4, 0);
    assert_eq!(pick.pentatonic_variant, 0);
    assert_eq!(pick.root, 2);
}

#[test]
fn controls_follow_the_chord_choice() {
    let mut pick = ChordPick::new();
    assert_eq!(pick.controls(), ChordControls { pentatonic: true, inversion: false, mute: false, tap_hint: false });
    pick.select_chord(2);
    assert_eq!(pick.controls(), ChordControls { pentatonic: false, inversion: false, mute: true, tap_hint: true });
    pick.tap_fret(0, 1);
    assert_eq!(pick.controls(), ChordControls { pentatonic: false, inversion: true, mute: true, tap_hint: false });
}

#[test]
fn button_labels() {
    assert_eq!(pentatonic_label(2, 1), "Pent 1");
    assert_eq!(pentatonic_label(2, 0), "Pent");
    assert_eq!(pentatonic_label(1, 1), "Pent");
    assert_eq!(inversion_label(0), "Root");
    assert_eq!(inversion_label(2), "Inv 2");
}

#[test]
fn scale_title_and_degrees() {
    let families = all_families();
    let ionian = &families[0].scales[0];
    assert_eq!(scale_title(0, ionian), "C Ionian");
    assert_eq!(degree_line(ionian), "1  2  3  4  5  6  7");
}
