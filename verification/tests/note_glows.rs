use metronome::note_glows::{scroll_fret, GlowSet, NoteGlow};

#[test]
fn struck_notes_glow_until_they_fade() {
    let mut glows = GlowSet::new();
    glows.set_active_notes(&vec![(1, 3), (2, 5)], 1_000);
    assert_eq!(glows.glows.len(), 2);
    assert!(glows.has_active_animations(2_000));
    assert!(glows.has_active_animations(2_499));
    assert!(!glows.has_active_animations(2_500));
}

#[test]
fn striking_a_note_again_starts_it_over() {
    let mut glows = GlowSet::new();
    glows.set_active_notes(&vec![(1, 3), (2, 5)], 1_000);
    glows.set_active_notes(&vec![(1, 3)], 1_200);
    assert_eq!(
        glows.glows,
        vec![NoteGlow { string: 2, fret: 5, start_ms: 1_000 }, NoteGlow { string: 1, fret: 3, start_ms: 1_200 }]
    );
}

#[test]
fn faded_glows_are_dropped_on_the_next_beat() {
    let mut glows = GlowSet::new();
    glows.set_active_notes(&vec![(1, 3)], 0);
    glows.set_active_notes(&vec![(4, 7)], 5_000);
    assert_eq!(glows.glows, vec![NoteGlow { string: 4, fret: 7, start_ms: 5_000 }]);
    glows.clear_notes();
    assert!(glows.glows.is_empty());
    assert!(!glows.has_active_animations(5_000));
}

#[test]
fn striking_without_pruning_keeps_old_glows() {
    let mut glows = GlowSet::new();
    glows.strike(&vec![(1, 3)], 0);
    glows.strike(&vec![(2, 2)], 9_000);
    assert_eq!(glows.glows.len(), 2);
    glows.prune(9_000);
    assert_eq!(glows.glows.len(), 1);
}

#[test]
fn the_fretboard_scrolls_to_the_lowest_fretted_note() {
    assert_eq!(scroll_fret(&vec![(1, 7), (2, 5), (3, 9)]), Some(5));
    assert_eq!(scroll_fret(&vec![(1, 7), (2, 0)]), None);
    assert_eq!(scroll_fret(&Vec::new()), None);
}
