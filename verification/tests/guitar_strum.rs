use metronome::chord_builder::VoicingNote;
use metronome::guitar_strum::{guitar_uri, rand_u32, strum_plan};

fn note(string_index: usize, fret: usize) -> VoicingNote {
    VoicingNote { string_index, fret, label: String::new() }
}

#[test]
fn guitar_uri_names_the_sample_of_the_note() {
    assert_eq!(
        guitar_uri(57),
        "resource:///com/adrienplazas/Metronome/audio/guitar/guitar_57.ogg"
    );
}

#[test]
fn guitar_uri_clamps_to_the_sample_range() {
    assert!(guitar_uri(12).ends_with("guitar_40.ogg"));
    assert!(guitar_uri(100).ends_with("guitar_84.ogg"));
    assert!(guitar_uri(40).ends_with("guitar_40.ogg"));
    assert!(guitar_uri(84).ends_with("guitar_84.ogg"));
}

#[test]
fn rand_u32_is_xorshift_from_the_seed() {
    let mut state: u32 = 0xDEAD_BEEF;
    assert_eq!(rand_u32(&mut state), 1_199_382_711);
    assert_eq!(state, 1_199_382_711);
    assert_eq!(rand_u32(&mut state), 2_384_302_402);
}

#[test]
fn strum_plan_goes_from_the_low_string_up() {
    let voicing = vec![note(0, 3), note(5, 0), note(2, 2)];
    let mut state: u32 = 0xDEAD_BEEF;
    let steps = strum_plan(&voicing, &mut state);
    let notes: Vec<u8> = steps.iter().map(|s| s.midi_note).collect();
    assert_eq!(notes, vec![40, 57, 67]);
    let delays: Vec<u64> = steps.iter().map(|s| s.delay_ms).collect();
    assert_eq!(delays, vec![1, 28, 59]);
    let draws: Vec<u32> = steps.iter().map(|s| s.velocity_draw).collect();
    assert_eq!(draws, vec![2_384_302_402, 4_276_113_467, 2_760_751_131]);
    assert_eq!(state, 2_760_751_131);
}

#[test]
fn strum_plan_keeps_the_order_of_notes_on_one_string() {
    let voicing = vec![note(3, 1), note(4, 0), note(3, 5)];
    let mut state: u32 = 1;
    let steps = strum_plan(&voicing, &mut state);
    let notes: Vec<u8> = steps.iter().map(|s| s.midi_note).collect();
    // string 4 is the A string (open 45), string 3 the D string (50)
    assert_eq!(notes, vec![45, 51, 55]);
}

#[test]
fn strum_plan_of_nothing_draws_nothing() {
    let mut state: u32 = 7;
    let steps = strum_plan(&Vec::new(), &mut state);
    assert!(steps.is_empty());
    assert_eq!(state, 7);
}

#[test]
fn strum_plan_clamps_high_notes() {
    let voicing = vec![note(0, 30)];
    let mut state: u32 = 1;
    let steps = strum_plan(&voicing, &mut state);
    assert_eq!(steps[0].midi_note, 84);
}
