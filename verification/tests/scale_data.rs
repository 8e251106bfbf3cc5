use metronome::scale_data::{all_families, has_diatonic_chords, note_at_fret, note_names, scale_degree, standard_tuning};

#[test]
fn test_scale_degree_c_ionian() {
    let families = all_families();
    let ionian = &families[0].scales[0];
    assert_eq!(ionian.name, "Ionian");

    let root: u8 = 0;
    for (expected_degree, &interval) in ionian.intervals.iter().enumerate() {
        let note = root + interval;
        assert_eq!(
            scale_degree(note, root, ionian),
            Some(expected_degree),
            "interval {} should be degree {}",
            interval,
            expected_degree,
        );
    }

    assert_eq!(scale_degree(1, root, ionian), None);
    assert_eq!(scale_degree(3, root, ionian), None);
}

#[test]
fn test_scale_degree_wraps_octaves() {
    let families = all_families();
    let ionian = &families[0].scales[0];
    let root: u8 = 0;
    assert_eq!(scale_degree(14, root, ionian), Some(1));
    assert_eq!(scale_degree(24, root, ionian), Some(0));
}

#[test]
fn test_note_at_fret_open_strings() {
    for string_idx in 0..6 {
        let expected = standard_tuning(string_idx);
        assert_eq!(
            note_at_fret(string_idx, 0),
            expected,
            "open string {} should be {}",
            string_idx,
            expected,
        );
    }
}

#[test]
fn test_note_at_fret_known_positions() {
    assert_eq!(note_at_fret(0, 5), 9);
    assert_eq!(note_at_fret(1, 7), 16);
    assert_eq!(note_at_fret(5, 12), 40);
}

#[test]
fn test_has_diatonic_chords_seven_note_scales() {
    let families = all_families();
    for family in &families[0..3] {
        for scale in &family.scales {
            assert!(
                has_diatonic_chords(scale),
                "{} / {} should support diatonic chords (has {} notes)",
                family.name,
                scale.name,
                scale.intervals.len(),
            );
        }
    }
}

#[test]
fn test_has_diatonic_chords_non_seven_note_scales() {
    let families = all_families();
    let messiaen = &families[3];
    for scale in &messiaen.scales {
        assert!(
            !has_diatonic_chords(scale),
            "Messiaen {} should not support diatonic chords (has {} notes)",
            scale.name,
            scale.intervals.len(),
        );
    }

    let blues = &families[4].scales[0];
    assert!(
        !has_diatonic_chords(blues),
        "Blues should not support diatonic chords (has {} notes)",
        blues.intervals.len(),
    );
}

#[test]
fn test_all_scales_intervals_match_labels() {
    for family in &all_families() {
        for scale in &family.scales {
            assert_eq!(
                scale.intervals.len(),
                scale.degree_labels.len(),
                "{} / {} has {} intervals but {} labels",
                family.name,
                scale.name,
                scale.intervals.len(),
                scale.degree_labels.len(),
            );
        }
    }
}

#[test]
fn test_all_pentatonic_indices_in_bounds() {
    for family in &all_families() {
        for scale in &family.scales {
            for (variant_idx, variant) in scale.pentatonic_variants.iter().enumerate() {
                assert_eq!(
                    variant.len(),
                    5,
                    "{} / {} pentatonic variant {} has {} notes, expected 5",
                    family.name,
                    scale.name,
                    variant_idx,
                    variant.len(),
                );
                for &index in variant {
                    assert!(
                        index < scale.intervals.len(),
                        "{} / {} pentatonic variant {} has out-of-bounds index {} (scale has {} notes)",
                        family.name,
                        scale.name,
                        variant_idx,
                        index,
                        scale.intervals.len(),
                    );
                }
            }
        }
    }
}

#[test]
fn test_total_scale_count() {
    let total: usize = all_families().iter().map(|family| family.scales.len()).sum();
    assert_eq!(total, 30);
}

#[test]
fn test_note_names_count() {
    assert_eq!(note_names().len(), 12);
}

#[test]
fn test_intervals_start_at_zero_and_stay_in_range() {
    for family in &all_families() {
        for scale in &family.scales {
            assert_eq!(
                scale.intervals[0], 0,
                "{} / {} should start on the root (0)",
                family.name, scale.name,
            );
            for &interval in &scale.intervals {
                assert!(
                    interval < 12,
                    "{} / {} has interval {} >= 12",
                    family.name,
                    scale.name,
                    interval,
                );
            }
        }
    }
}

#[test]
fn note_names_spell_the_chromatic_scale() {
    let names = note_names();
    assert_eq!(names[0], "C");
    assert_eq!(names[1], "C\u{266F}");
    assert_eq!(names[10], "B\u{266D}");
    assert_eq!(names[11], "B");
}

#[test]
fn scale_degree_handles_root_above_note() {
    let families = all_families();
    let ionian = &families[0].scales[0];
    // D root (2), note C (0): C is ten semitones above D, not in D Ionian.
    assert_eq!(scale_degree(0, 2, ionian), None);
    // D root (2), note C# (1): eleven semitones above D, the 7th degree.
    assert_eq!(scale_degree(1, 2, ionian), Some(6));
}

#[test]
fn note_at_fret_takes_fret_as_a_byte() {
    assert_eq!(note_at_fret(0, 256), 4);
}
