use metronome::playback::{collect_beat_notes, count_in_beats, count_in_click, EngineAction, PlaybackCommand, PlaybackEngine, BUFFER_FRAMES};
use metronome::tab_midi::{BeatMarker, MidiEvent, MidiTimeline};

/// Eight beats, one every 1000 samples, each a guitar note of half a beat.
fn eight_beats() -> MidiTimeline {
    let mut events = Vec::new();
    let mut markers = Vec::new();
    for beat in 0..8u64 {
        let start = beat * 1000;
        events.push(MidiEvent::NoteOn { sample_position: start, channel: 0, key: 40 + beat as u8, velocity: 80 });
        events.push(MidiEvent::NoteOff { sample_position: start + 500, channel: 0, key: 40 + beat as u8 });
        markers.push(BeatMarker { sample_position: start, beat_index: beat as usize });
    }
    MidiTimeline { events, beat_markers: markers, total_samples: 8000 }
}

fn engine_with_timeline() -> PlaybackEngine {
    let mut engine = PlaybackEngine::new();
    engine.handle_command(PlaybackCommand::SetTimeline(eight_beats()));
    engine
}

/// Runs up to `buffers` buffers; the fired beat indices in order.
fn run(engine: &mut PlaybackEngine, buffers: usize) -> Vec<usize> {
    let mut fired = Vec::new();
    for _ in 0..buffers {
        match engine.advance() {
            Some(work) => fired.extend(work.beats.iter().map(|marker| marker.beat_index)),
            None => break,
        }
    }
    fired
}

#[test]
fn test_full_playback_fires_all_beats_in_order() {
    let mut engine = engine_with_timeline();
    engine.handle_command(PlaybackCommand::Play);
    let fired = run(&mut engine, 1000);
    assert_eq!(fired, (0..8).collect::<Vec<usize>>());
    assert!(!engine.is_playing());
}

#[test]
fn test_end_of_song_resets_position() {
    let mut engine = engine_with_timeline();
    engine.handle_command(PlaybackCommand::Play);
    run(&mut engine, 1000);
    assert_eq!(engine.sample_position(), 0);
    assert_eq!(engine.event_index(), 0);
    assert_eq!(engine.beat_marker_index(), 0);
}

#[test]
fn test_play_without_timeline_is_noop() {
    let mut engine = PlaybackEngine::new();
    assert_eq!(engine.handle_command(PlaybackCommand::Play), EngineAction::Nothing);
    assert!(!engine.is_playing());
    assert!(engine.advance().is_none());
}

#[test]
fn test_pause_preserves_position() {
    let mut engine = engine_with_timeline();
    engine.handle_command(PlaybackCommand::Play);
    run(&mut engine, 10);
    let position = engine.sample_position();
    assert_eq!(position, 10 * BUFFER_FRAMES);
    engine.handle_command(PlaybackCommand::Pause);
    assert!(run(&mut engine, 10).is_empty());
    assert_eq!(engine.sample_position(), position);
    engine.handle_command(PlaybackCommand::Play);
    let after = run(&mut engine, 1000);
    assert_eq!(after[0], 3);
}

#[test]
fn test_seek_forward() {
    let mut engine = engine_with_timeline();
    engine.handle_command(PlaybackCommand::Play);
    assert_eq!(engine.handle_command(PlaybackCommand::SeekToBeat(5)), EngineAction::Silence);
    assert_eq!(engine.sample_position(), 5000);
    assert_eq!(engine.event_index(), 10);
    assert_eq!(engine.beat_marker_index(), 5);
    let fired = run(&mut engine, 1000);
    assert_eq!(fired, vec![5, 6, 7]);
}

#[test]
fn test_seek_to_nonexistent_beat_is_noop() {
    let mut engine = engine_with_timeline();
    engine.handle_command(PlaybackCommand::Play);
    run(&mut engine, 5);
    let position = engine.sample_position();
    assert_eq!(engine.handle_command(PlaybackCommand::SeekToBeat(9999)), EngineAction::Nothing);
    assert_eq!(engine.sample_position(), position);
}

#[test]
fn test_seek_without_timeline_is_safe() {
    let mut engine = PlaybackEngine::new();
    engine.handle_command(PlaybackCommand::SeekToBeat(42));
    assert_eq!(engine.sample_position(), 0);
}

#[test]
fn test_set_loop_without_timeline_is_safe() {
    let mut engine = PlaybackEngine::new();
    engine.handle_command(PlaybackCommand::SetLoop(Some((0, 3))));
    assert!(engine.loop_range().is_none());
}

#[test]
fn test_loop_stays_in_range() {
    let mut engine = engine_with_timeline();
    engine.handle_command(PlaybackCommand::SetLoop(Some((2, 3))));
    assert_eq!(engine.loop_range(), Some((2000, 4000)));
    engine.handle_command(PlaybackCommand::Play);
    let fired = run(&mut engine, 200);
    assert!(engine.is_playing());
    assert_eq!(&fired[0..4], &[0, 1, 2, 3]);
    assert!(fired.iter().all(|&beat| beat <= 3));
    assert!(fired.iter().filter(|&&beat| beat == 2).count() >= 3);
}

#[test]
fn test_loop_with_invalid_end_uses_song_end() {
    let mut engine = engine_with_timeline();
    engine.handle_command(PlaybackCommand::SetLoop(Some((0, 9999))));
    assert_eq!(engine.loop_range(), Some((0, 8000)));
    engine.handle_command(PlaybackCommand::SetLoop(Some((0, usize::MAX))));
    assert_eq!(engine.loop_range(), Some((0, 8000)));
    engine.handle_command(PlaybackCommand::Play);
    let fired = run(&mut engine, 100);
    assert!(fired.len() > 8);
    assert_eq!(&fired[0..8], &[0, 1, 2, 3, 4, 5, 6, 7]);
}

#[test]
fn test_timeline_swap_resets_state() {
    let mut engine = engine_with_timeline();
    engine.handle_command(PlaybackCommand::Play);
    run(&mut engine, 10);
    engine.handle_command(PlaybackCommand::SetTimeline(eight_beats()));
    assert_eq!(engine.sample_position(), 0);
    assert_eq!(engine.event_index(), 0);
    assert_eq!(engine.beat_marker_index(), 0);
}

#[test]
fn test_double_play_is_idempotent() {
    let mut engine = engine_with_timeline();
    engine.handle_command(PlaybackCommand::Play);
    engine.handle_command(PlaybackCommand::Play);
    let fired = run(&mut engine, 1000);
    assert_eq!(fired.len(), 8);
}

#[test]
fn test_buffer_sends_due_events_only() {
    let mut engine = engine_with_timeline();
    engine.handle_command(PlaybackCommand::Play);
    let work = engine.advance().unwrap();
    assert_eq!(work.events, vec![MidiEvent::NoteOn { sample_position: 0, channel: 0, key: 40, velocity: 80 }]);
    assert!(!work.silence);
    let work = engine.advance().unwrap();
    assert_eq!(work.events, vec![MidiEvent::NoteOff { sample_position: 500, channel: 0, key: 40 }]);
    let work = engine.advance().unwrap();
    assert!(work.events.is_empty());
    assert!(work.beats.is_empty());
}

#[test]
fn test_commands_for_the_synthesizer() {
    let mut engine = PlaybackEngine::new();
    assert_eq!(engine.handle_command(PlaybackCommand::SetGuitarProgram(29)), EngineAction::SelectGuitarProgram(29));
    assert_eq!(engine.handle_command(PlaybackCommand::SetGuitarVolume(90)), EngineAction::SetVolume { channel: 0, volume: 90 });
    assert_eq!(engine.handle_command(PlaybackCommand::SetMetronomeVolume(70)), EngineAction::SetVolume { channel: 9, volume: 70 });
    assert_eq!(engine.handle_command(PlaybackCommand::Stop), EngineAction::Shutdown);
    engine.handle_command(PlaybackCommand::SetTimeline(eight_beats()));
    assert_eq!(engine.handle_command(PlaybackCommand::PlayWithCountIn), EngineAction::CountInThenPlay);
    assert!(engine.is_playing());
}

#[test]
fn test_collect_beat_notes() {
    let timeline = eight_beats();
    let notes = collect_beat_notes(&timeline, &timeline.beat_markers[3]);
    assert_eq!(notes, vec![(0, 43)]);
    let last = collect_beat_notes(&timeline, &timeline.beat_markers[7]);
    assert_eq!(last, vec![(0, 47)]);
}

#[test]
fn count_in_accents_the_first_beat_of_each_bar() {
    assert_eq!(count_in_beats(2, 3), 6);
    let clicks: Vec<(u8, u8)> = (0..6).map(|beat| count_in_click(beat, 3)).collect();
    assert_eq!(clicks, vec![(75, 100), (37, 80), (37, 80), (75, 100), (37, 80), (37, 80)]);
}
