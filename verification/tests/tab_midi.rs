use metronome::tab_midi::{assemble_timeline, compute_midi_key, sort_events, MidiEvent};
use metronome::tab_models::{NoteDuration, ScoreBar, ScoreBeat, TabNote, TrackInfo};

fn guitar() -> TrackInfo {
    TrackInfo { name: "Guitar".to_string(), tuning: vec![40, 45, 50, 55, 59, 64], capo: 0, string_count: 6, midi_channel: 0, midi_port: 0 }
}

#[test]
fn test_midi_key_high_and_low_strings() {
    let track = guitar();
    assert_eq!(compute_midi_key(&TabNote { string: 1, fret: 0 }, &track), 64);
    assert_eq!(compute_midi_key(&TabNote { string: 6, fret: 3 }, &track), 43);
}

#[test]
fn test_midi_key_capo_and_saturation() {
    let mut track = guitar();
    track.capo = 2;
    assert_eq!(compute_midi_key(&TabNote { string: 1, fret: 5 }, &track), 71);
    assert_eq!(compute_midi_key(&TabNote { string: 1, fret: 250 }, &track), 255);
}

#[test]
fn test_midi_key_missing_string_is_zero() {
    let track = guitar();
    assert_eq!(compute_midi_key(&TabNote { string: 0, fret: 1 }, &track), 0);
    assert_eq!(compute_midi_key(&TabNote { string: 7, fret: 1 }, &track), 41);
}

#[test]
fn test_sample_position_of_events() {
    assert_eq!(MidiEvent::NoteOn { sample_position: 5, channel: 0, key: 1, velocity: 2 }.sample_position(), 5);
    assert_eq!(MidiEvent::NoteOff { sample_position: 9, channel: 0, key: 1 }.sample_position(), 9);
}

#[test]
fn test_sort_is_stable() {
    let events = vec![
        MidiEvent::NoteOff { sample_position: 10, channel: 0, key: 1 },
        MidiEvent::NoteOn { sample_position: 0, channel: 0, key: 1, velocity: 80 },
        MidiEvent::NoteOn { sample_position: 10, channel: 0, key: 2, velocity: 80 },
        MidiEvent::NoteOff { sample_position: 5, channel: 9, key: 3 },
    ];
    let sorted = sort_events(&events);
    assert_eq!(sorted, vec![events[1], events[3], events[0], events[2]]);
}

fn quarter() -> NoteDuration {
    NoteDuration { value: 0, dotted: false, tuplet_enters: 1, tuplet_times: 1 }
}

#[test]
fn test_assemble_timeline_with_metronome() {
    let beats = vec![
        ScoreBeat { bar_index: 0, beat_index: 0, duration: quarter(), is_rest: false, notes: vec![TabNote { string: 1, fret: 0 }] },
        ScoreBeat { bar_index: 0, beat_index: 1, duration: quarter(), is_rest: true, notes: Vec::new() },
    ];
    let bars = vec![ScoreBar { index: 0, first_beat_index: 0, beat_count: 2, time_sig_num: 2, time_sig_denom: 4 }];
    let spans = vec![(0u64, 100u64), (100, 200)];
    let clicks = vec![vec![(0u64, 10u64), (100, 110)]];
    let timeline = assemble_timeline(&beats, &bars, &vec![guitar()], 0, true, &spans, &clicks);
    assert_eq!(timeline.total_samples, 200);
    assert_eq!(timeline.beat_markers.len(), 2);
    assert_eq!(timeline.beat_markers[1].sample_position, 100);
    assert_eq!(timeline.events, vec![
        MidiEvent::NoteOn { sample_position: 0, channel: 9, key: 75, velocity: 100 },
        MidiEvent::NoteOn { sample_position: 0, channel: 0, key: 64, velocity: 80 },
        MidiEvent::NoteOff { sample_position: 10, channel: 9, key: 75 },
        MidiEvent::NoteOn { sample_position: 100, channel: 9, key: 37, velocity: 80 },
        MidiEvent::NoteOff { sample_position: 100, channel: 0, key: 64 },
        MidiEvent::NoteOff { sample_position: 110, channel: 9, key: 37 },
    ]);
    let without = assemble_timeline(&beats, &bars, &vec![guitar()], 0, false, &spans, &Vec::new());
    assert_eq!(without.events.len(), 2);
    assert_eq!(without.beat_markers, timeline.beat_markers);
}

#[test]
fn test_assemble_timeline_bad_track_is_empty() {
    let timeline = assemble_timeline(&Vec::new(), &Vec::new(), &vec![guitar()], 3, false, &Vec::new(), &Vec::new());
    assert!(timeline.events.is_empty());
    assert!(timeline.beat_markers.is_empty());
    assert_eq!(timeline.total_samples, 0);
}

#[test]
fn test_assemble_timeline_skips_keys_past_midi_range() {
    let mut track = guitar();
    track.capo = 100;
    let beats = vec![ScoreBeat { bar_index: 0, beat_index: 0, duration: quarter(), is_rest: false, notes: vec![TabNote { string: 1, fret: 0 }] }];
    let bars = vec![ScoreBar { index: 0, first_beat_index: 0, beat_count: 1, time_sig_num: 4, time_sig_denom: 4 }];
    let timeline = assemble_timeline(&beats, &bars, &vec![track], 0, false, &vec![(0, 50)], &Vec::new());
    assert!(timeline.events.is_empty());
    assert_eq!(timeline.beat_markers.len(), 1);
}
