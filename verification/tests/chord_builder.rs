use metronome::chord_builder::{chord_structures, chord_symbol, generate_voicing};
use metronome::scale_data::all_families;

const ROOT_C: u8 = 0;
const DEGREE_0: usize = 0;
const DEGREE_1: usize = 1;
const DEGREE_4: usize = 4;
const DEGREE_6: usize = 6;
const CENTER_FRET_5: usize = 5;
const CENTER_FRET_12: usize = 12;
const INVERSION_0: usize = 0;
const INVERSION_1: usize = 1;

#[test]
fn test_c_ionian_degree0_triad_gives_c() {
    let families = all_families();
    let structures = chord_structures();
    assert_eq!(chord_symbol(ROOT_C, &families[0].scales[0], DEGREE_0, &structures[0]), "C");
}

#[test]
fn test_c_ionian_degree1_triad_gives_dm() {
    let families = all_families();
    let structures = chord_structures();
    assert_eq!(chord_symbol(ROOT_C, &families[0].scales[0], DEGREE_1, &structures[0]), "Dm");
}

#[test]
fn test_c_ionian_degree6_triad_gives_bdim() {
    let families = all_families();
    let structures = chord_structures();
    assert_eq!(chord_symbol(ROOT_C, &families[0].scales[0], DEGREE_6, &structures[0]), "Bdim");
}

#[test]
fn test_c_ionian_degree0_7th_gives_cmaj7() {
    let families = all_families();
    let structures = chord_structures();
    assert_eq!(chord_symbol(ROOT_C, &families[0].scales[0], DEGREE_0, &structures[1]), "Cmaj7");
}

#[test]
fn test_c_ionian_degree4_7th_gives_g7() {
    let families = all_families();
    let structures = chord_structures();
    assert_eq!(chord_symbol(ROOT_C, &families[0].scales[0], DEGREE_4, &structures[1]), "G7");
}

#[test]
fn test_c_ionian_degree1_7th_gives_dm7() {
    let families = all_families();
    let structures = chord_structures();
    assert_eq!(chord_symbol(ROOT_C, &families[0].scales[0], DEGREE_1, &structures[1]), "Dm7");
}

#[test]
fn test_c_ionian_degree6_7th_gives_bm7b5() {
    let families = all_families();
    let structures = chord_structures();
    assert_eq!(
        chord_symbol(ROOT_C, &families[0].scales[0], DEGREE_6, &structures[1]),
        "Bm7\u{266D}5"
    );
}

#[test]
fn test_voicing_has_one_note_per_string_within_window() {
    let families = all_families();
    let structures = chord_structures();
    let voicing = generate_voicing(ROOT_C, &families[0].scales[0], DEGREE_0, &structures[0], CENTER_FRET_5, INVERSION_0);

    assert!(!voicing.is_empty(), "voicing should have at least one note");
    assert!(voicing.len() <= 6, "voicing should have at most 6 notes");

    let fret_min = CENTER_FRET_5.saturating_sub(2);
    let fret_max = CENTER_FRET_5 + 3;

    let mut seen_strings = std::collections::HashSet::new();
    for note in &voicing {
        assert!(
            note.fret >= fret_min && note.fret <= fret_max,
            "fret {} outside [{}, {}]",
            note.fret,
            fret_min,
            fret_max,
        );
        assert!(seen_strings.insert(note.string_index), "duplicate string_index {}", note.string_index);
    }
}

#[test]
fn test_voicing_contains_correct_chord_tones() {
    let families = all_families();
    let structures = chord_structures();
    let voicing = generate_voicing(ROOT_C, &families[0].scales[0], DEGREE_0, &structures[0], CENTER_FRET_5, INVERSION_0);

    let labels: std::collections::HashSet<&str> = voicing.iter().map(|note| note.label.as_str()).collect();
    assert!(labels.contains("R"), "voicing should contain root");
    assert!(labels.contains("3"), "voicing should contain 3rd");
    assert!(labels.contains("5"), "voicing should contain 5th");
}

#[test]
fn test_inversion0_puts_root_in_bass() {
    let families = all_families();
    let structures = chord_structures();
    let voicing = generate_voicing(ROOT_C, &families[0].scales[0], DEGREE_0, &structures[0], CENTER_FRET_5, INVERSION_0);

    let bass_note = voicing
        .iter()
        .min_by_key(|note| std::cmp::Reverse(note.string_index))
        .expect("voicing should not be empty");
    assert_eq!(bass_note.label, "R", "inversion 0 should have root in bass");
}

#[test]
fn test_inversion1_puts_third_in_bass() {
    let families = all_families();
    let structures = chord_structures();
    let voicing = generate_voicing(ROOT_C, &families[0].scales[0], DEGREE_0, &structures[0], CENTER_FRET_12, INVERSION_1);

    let bass_note = voicing
        .iter()
        .min_by_key(|note| std::cmp::Reverse(note.string_index))
        .expect("voicing should not be empty");
    assert_eq!(bass_note.label, "3", "inversion 1 should have 3rd in bass");
}

#[test]
fn test_all_10_structures_work_for_c_ionian_degree0() {
    let families = all_families();
    let scale = &families[0].scales[0];
    for (structure_index, structure) in chord_structures().iter().enumerate() {
        let voicing = generate_voicing(ROOT_C, scale, DEGREE_0, structure, CENTER_FRET_5, INVERSION_0);
        assert!(
            !voicing.is_empty(),
            "structure {} ({}) produced empty voicing",
            structure_index,
            structure.label,
        );

        let symbol = chord_symbol(ROOT_C, scale, DEGREE_0, structure);
        assert!(
            !symbol.is_empty(),
            "structure {} ({}) produced empty symbol",
            structure_index,
            structure.label,
        );
    }
}

#[test]
fn test_all_10_structures_symbols_for_c_ionian_degree0() {
    let families = all_families();
    let scale = &families[0].scales[0];
    let expected = ["C", "Cmaj7", "Cmaj9", "Cmaj11", "Cmaj13", "C6", "Cadd9", "Cadd11", "Csus4", "Csus2"];
    for (structure, expected_symbol) in chord_structures().iter().zip(expected.iter()) {
        let symbol = chord_symbol(ROOT_C, scale, DEGREE_0, structure);
        assert_eq!(
            &symbol, expected_symbol,
            "structure {} produced '{}', expected '{}'",
            structure.label, symbol, expected_symbol,
        );
    }
}

#[test]
fn chord_symbols_for_other_families() {
    let families = all_families();
    let structures = chord_structures();
    // A Aeolian, degree 0: A minor seventh.
    assert_eq!(chord_symbol(9, &families[0].scales[5], 0, &structures[1]), "Am7");
    // C Harmonic Minor, degree 0 seventh: minor-major seventh.
    assert_eq!(chord_symbol(0, &families[2].scales[0], 0, &structures[1]), "Cm(\u{0394})");
    // C Harmonic Minor, degree 4 ninth: G7(b9).
    assert_eq!(chord_symbol(0, &families[2].scales[0], 4, &structures[2]), "G7(\u{266D}9)");
    // C Lydian, degree 0 sus4: sharp fourth.
    assert_eq!(chord_symbol(0, &families[0].scales[3], 0, &structures[8]), "Csus\u{266F}4");
    // D Ionian, degree 1 sixth: E minor sixth.
    assert_eq!(chord_symbol(2, &families[0].scales[0], 1, &structures[5]), "Em6");
}

#[test]
fn voicing_of_c_major_near_fifth_fret_is_exact() {
    let families = all_families();
    let structures = chord_structures();
    let voicing = generate_voicing(ROOT_C, &families[0].scales[0], DEGREE_0, &structures[0], CENTER_FRET_5, INVERSION_0);
    let got: Vec<(usize, usize, &str)> = voicing.iter().map(|n| (n.string_index, n.fret, n.label.as_str())).collect();
    // Low E: fret 8 is C (R). A: 7 is E (3). D: 5 is G (5). G: 5 is C. B: 5 is E. e: 3 is G.
    assert_eq!(got, vec![(5, 8, "R"), (4, 7, "3"), (3, 5, "5"), (2, 5, "R"), (1, 5, "3"), (0, 3, "5")]);
}

#[test]
fn voicing_past_the_last_fret_is_empty() {
    let families = all_families();
    let structures = chord_structures();
    let voicing = generate_voicing(ROOT_C, &families[0].scales[0], DEGREE_0, &structures[0], 40, INVERSION_0);
    assert!(voicing.is_empty());
}

#[test]
fn first_inversion_near_fifth_fret_leaves_low_string_silent() {
    let families = all_families();
    let structures = chord_structures();
    let voicing = generate_voicing(ROOT_C, &families[0].scales[0], DEGREE_0, &structures[0], CENTER_FRET_5, INVERSION_1);
    let got: Vec<(usize, usize, &str)> = voicing.iter().map(|n| (n.string_index, n.fret, n.label.as_str())).collect();
    // The low E string has no E between frets 3 and 8, so the A string's E (fret 7) is the bass.
    assert_eq!(got, vec![(4, 7, "3"), (3, 5, "5"), (2, 5, "R"), (1, 5, "3"), (0, 3, "5")]);
}

#[test]
fn chord_structures_carry_their_tone_labels() {
    let structures = chord_structures();
    assert_eq!(structures[0].tone_labels, vec!["R", "3", "5"]);
    assert_eq!(structures[3].tone_labels, vec!["R", "5", "7", "9", "11"]);
    assert_eq!(structures[9].tone_labels, vec!["R", "2", "5"]);
}
