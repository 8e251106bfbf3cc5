use metronome::playback::{PlaybackCommand, PlaybackEngine};
use metronome::tab_midi::{assemble_timeline, MidiTimeline};
use metronome::tab_models::{NoteDuration, ScoreBar, ScoreBeat, ScoreLayout, SongTempo, TabNote, TrackInfo};

/// Samples per beat at the song's own tempo.
const BEAT: u64 = 10_000;

/// A song of eleven bars of sixteen beats and a
/// last bar of eight, 184 beats, each a single note.
fn hammers_score() -> ScoreLayout {
    let mut beats = Vec::new();
    let mut bars = Vec::new();
    let mut index = 0usize;
    for bar in 0..12usize {
        let count = if bar == 11 { 8 } else { 16 };
        bars.push(ScoreBar { index: bar, first_beat_index: index, beat_count: count, time_sig_num: 4, time_sig_denom: 4 });
        for _ in 0..count {
            beats.push(ScoreBeat {
                bar_index: bar,
                beat_index: index,
                duration: NoteDuration { value: 2, dotted: false, tuplet_enters: 1, tuplet_times: 1 },
                is_rest: false,
                notes: vec![TabNote { string: 1 + (index % 6) as u8, fret: (index % 12) as u8 }],
            });
            index += 1;
        }
    }
    let track = TrackInfo {
        name: "Guitar".to_string(),
        tuning: vec![40, 45, 50, 55, 59, 64],
        capo: 0,
        string_count: 6,
        midi_channel: 0,
        midi_port: 0,
    };
    ScoreLayout { beats, bars, tracks: vec![track], title: String::new(), artist: String::new(), tempo: SongTempo::Bpm(120) }
}

/// The timeline at `tempo_percent` percent of the song's tempo.
fn build_timeline(score: &ScoreLayout, tempo_percent: u64, include_metronome: bool) -> MidiTimeline {
    let at = |samples: u64| samples * 100 / tempo_percent;
    let beat_spans: Vec<(u64, u64)> =
        (0..score.beats.len() as u64).map(|beat| (at(beat * BEAT), at(beat * BEAT + BEAT / 2))).collect();
    let click_spans: Vec<Vec<(u64, u64)>> = score
        .bars
        .iter()
        .map(|bar| {
            (0..4u64)
                .map(|click| {
                    let start = (bar.first_beat_index as u64 + click * 4) * BEAT;
                    (at(start), at(start + BEAT / 5))
                })
                .collect()
        })
        .collect();
    assemble_timeline(&score.beats, &score.bars, &score.tracks, 0, include_metronome, &beat_spans, &click_spans)
}

struct Engine {
    engine: PlaybackEngine,
    fired: Vec<usize>,
}

impl Engine {
    fn command(&mut self, command: PlaybackCommand) {
        self.engine.handle_command(command);
    }

    fn run(&mut self, buffers: usize) {
        for _ in 0..buffers {
            match self.engine.advance() {
                Some(work) => self.fired.extend(work.beats.iter().map(|marker| marker.beat_index)),
                None => break,
            }
        }
    }

    fn take_fired(&mut self) -> Vec<usize> {
        std::mem::take(&mut self.fired)
    }

    fn is_playing(&self) -> bool {
        self.engine.is_playing()
    }
}

fn hammers_engine() -> Engine {
    let score = hammers_score();
    let mut engine = Engine { engine: PlaybackEngine::new(), fired: Vec::new() };
    engine.command(PlaybackCommand::SetTimeline(build_timeline(&score, 100, false)));
    engine
}

fn assert_beats_in_range(beats: &[usize], lo: usize, hi: usize) {
    for &beat_index in beats {
        assert!(beat_index >= lo && beat_index <= hi, "beat {} outside [{}, {}]", beat_index, lo, hi);
    }
}

#[test]
fn test_timeline_markers_sorted_and_in_range() {
    let score = hammers_score();
    let tl = build_timeline(&score, 100, false);
    assert_eq!(tl.beat_markers.len(), 184);
    assert_eq!(tl.beat_markers[0].sample_position, 0);
    assert!(tl.total_samples > 0);
    for window in tl.beat_markers.windows(2) {
        assert!(window[0].sample_position <= window[1].sample_position);
    }
    for marker in &tl.beat_markers {
        assert!(marker.beat_index < score.beats.len());
    }
}

#[test]
fn test_beat_index_matches_score_position() {
    let score = hammers_score();
    let tl = build_timeline(&score, 100, false);
    for marker in &tl.beat_markers {
        let beat = &score.beats[marker.beat_index];
        assert!(beat.bar_index < score.bars.len());
        assert!(!beat.notes.is_empty(), "beat {} has no notes", marker.beat_index);
    }
}

#[test]
fn test_pause_resume_no_duplicate_beats() {
    let mut engine = hammers_engine();
    engine.command(PlaybackCommand::Play);
    engine.run(50);
    let first_batch = engine.take_fired();
    engine.command(PlaybackCommand::Pause);
    engine.command(PlaybackCommand::Play);
    engine.run(1_000_000);
    let mut all = first_batch;
    all.extend(engine.take_fired());
    assert_eq!(all.len(), 184);
    for (position, beat_index) in all.iter().enumerate() {
        assert_eq!(*beat_index, position);
    }
}

#[test]
fn test_seek_to_start() {
    let mut engine = hammers_engine();
    engine.command(PlaybackCommand::Play);
    engine.run(200);
    engine.take_fired();
    engine.command(PlaybackCommand::SeekToBeat(0));
    engine.run(1_000_000);
    let fired = engine.take_fired();
    assert_eq!(fired[0], 0);
    assert_eq!(*fired.last().unwrap(), 183);
}

#[test]
fn test_seek_to_last_beat() {
    let mut engine = hammers_engine();
    engine.command(PlaybackCommand::Play);
    engine.command(PlaybackCommand::SeekToBeat(183));
    engine.run(1_000_000);
    let fired = engine.take_fired();
    assert_eq!(fired.len(), 1);
    assert_eq!(fired[0], 183);
}

#[test]
fn test_seek_backward_during_playback() {
    let mut engine = hammers_engine();
    engine.command(PlaybackCommand::Play);
    engine.run(500);
    let first_pass = engine.take_fired();
    let last_beat = *first_pass.last().unwrap();
    engine.command(PlaybackCommand::SeekToBeat(0));
    engine.run(1_000_000);
    let second_pass = engine.take_fired();
    assert_eq!(second_pass[0], 0);
    assert_eq!(*second_pass.last().unwrap(), 183);
    assert!(last_beat > 0);
}

#[test]
fn test_loop_first_bar() {
    let mut engine = hammers_engine();
    engine.command(PlaybackCommand::SetLoop(Some((0, 15))));
    engine.command(PlaybackCommand::Play);
    engine.run(200_000);
    let fired = engine.take_fired();
    assert!(fired.len() >= 48, "expected at least 3 cycles of 16 beats");
    assert_beats_in_range(&fired, 0, 15);
    for chunk in fired.chunks(16) {
        if chunk.len() < 16 {
            break;
        }
        for (offset, beat_index) in chunk.iter().enumerate() {
            assert_eq!(*beat_index, offset);
        }
    }
}

#[test]
fn test_loop_middle_bars() {
    let mut engine = hammers_engine();
    engine.command(PlaybackCommand::SetLoop(Some((64, 95))));
    engine.command(PlaybackCommand::Play);
    engine.run(500_000);
    let fired = engine.take_fired();
    let loop_beats: Vec<_> = fired.iter().filter(|&&b| b >= 64 && b <= 95).copied().collect();
    assert!(loop_beats.len() >= 64, "expected several loop cycles");
    let pre_loop: Vec<_> = fired.iter().filter(|&&b| b < 64).copied().collect();
    assert_eq!(pre_loop.len(), 64);
    for (position, beat_index) in pre_loop.iter().enumerate() {
        assert_eq!(*beat_index, position);
    }
    assert!(fired.iter().all(|&b| b <= 95), "beat past loop end fired");
}

#[test]
fn test_loop_last_bar() {
    let mut engine = hammers_engine();
    engine.command(PlaybackCommand::SetLoop(Some((176, 183))));
    engine.command(PlaybackCommand::Play);
    engine.run(1_000_000);
    let fired = engine.take_fired();
    let loop_beats: Vec<_> = fired.iter().filter(|&&b| b >= 176).copied().collect();
    assert!(loop_beats.len() >= 16, "expected at least 2 cycles of last bar");
    assert!(fired.iter().all(|&b| b <= 183), "beat index out of range");
}

#[test]
fn test_loop_single_beat() {
    let mut engine = hammers_engine();
    engine.command(PlaybackCommand::SetLoop(Some((42, 42))));
    engine.command(PlaybackCommand::Play);
    engine.run(100_000);
    let fired = engine.take_fired();
    let repeats: Vec<_> = fired.iter().filter(|&&b| b == 42).copied().collect();
    assert!(repeats.len() >= 3, "single-beat loop should repeat, got {}", repeats.len());
    assert!(fired.iter().all(|&b| b <= 42));
}

#[test]
fn test_loop_cleared_continues_playback() {
    let mut engine = hammers_engine();
    engine.command(PlaybackCommand::SetLoop(Some((0, 15))));
    engine.command(PlaybackCommand::Play);
    engine.run(10_000);
    engine.take_fired();
    engine.command(PlaybackCommand::SetLoop(None));
    engine.run(1_000_000);
    let fired = engine.take_fired();
    assert!(*fired.last().unwrap() == 183, "should reach end after loop cleared");
}

#[test]
fn test_loop_set_while_past_range() {
    let mut engine = hammers_engine();
    engine.command(PlaybackCommand::Play);
    engine.run(5000);
    let pre = engine.take_fired();
    assert!(*pre.last().unwrap() > 50, "should be well past beat 50");
    engine.command(PlaybackCommand::SetLoop(Some((0, 15))));
    engine.run(200_000);
    let fired = engine.take_fired();
    assert!(!fired.is_empty());
    assert_beats_in_range(&fired, 0, 15);
}

#[test]
fn test_loop_change_mid_loop() {
    let mut engine = hammers_engine();
    engine.command(PlaybackCommand::SetLoop(Some((0, 15))));
    engine.command(PlaybackCommand::Play);
    engine.run(10_000);
    engine.take_fired();
    engine.command(PlaybackCommand::SetLoop(Some((32, 47))));
    engine.run(200_000);
    let fired = engine.take_fired();
    let in_new_range: Vec<_> = fired.iter().filter(|&&b| b >= 32 && b <= 47).copied().collect();
    assert!(in_new_range.len() >= 32, "should loop several cycles in new range");
    let tail: Vec<_> = fired.iter().skip(fired.len().saturating_sub(32)).copied().collect();
    assert_beats_in_range(&tail, 32, 47);
}

#[test]
fn test_play_to_end_then_loop_then_play() {
    let mut engine = hammers_engine();
    engine.command(PlaybackCommand::Play);
    engine.run(1_000_000);
    assert!(!engine.is_playing());
    engine.take_fired();
    engine.command(PlaybackCommand::SetLoop(Some((0, 15))));
    engine.command(PlaybackCommand::Play);
    engine.run(100_000);
    let fired = engine.take_fired();
    assert!(!fired.is_empty(), "should fire beats after restart");
    assert_beats_in_range(&fired, 0, 15);
}

#[test]
fn test_play_to_end_then_play_again_no_loop() {
    let mut engine = hammers_engine();
    engine.command(PlaybackCommand::Play);
    engine.run(1_000_000);
    assert!(!engine.is_playing());
    let first = engine.take_fired();
    assert_eq!(first.len(), 184);
    engine.command(PlaybackCommand::Play);
    engine.run(1_000_000);
    let second = engine.take_fired();
    assert_eq!(second.len(), 184);
    assert_eq!(second[0], 0);
}

#[test]
fn test_seek_inside_loop_range() {
    let mut engine = hammers_engine();
    engine.command(PlaybackCommand::SetLoop(Some((0, 31))));
    engine.command(PlaybackCommand::Play);
    engine.run(1000);
    engine.take_fired();
    engine.command(PlaybackCommand::SeekToBeat(16));
    engine.run(100_000);
    let fired = engine.take_fired();
    assert_eq!(fired[0], 16, "should resume from seek point");
    assert_beats_in_range(&fired, 0, 31);
}

#[test]
fn test_seek_outside_loop_range() {
    let mut engine = hammers_engine();
    engine.command(PlaybackCommand::SetLoop(Some((0, 15))));
    engine.command(PlaybackCommand::Play);
    engine.run(1000);
    engine.take_fired();
    engine.command(PlaybackCommand::SeekToBeat(100));
    engine.run(100_000);
    let fired = engine.take_fired();
    assert!(!fired.is_empty());
}

#[test]
fn test_timeline_swap_clears_stale_indices() {
    let score = hammers_score();
    let mut engine = hammers_engine();
    engine.command(PlaybackCommand::Play);
    engine.run(5000);
    engine.take_fired();
    engine.command(PlaybackCommand::SetTimeline(build_timeline(&score, 100, true)));
    assert_eq!(engine.engine.sample_position(), 0);
    assert_eq!(engine.engine.event_index(), 0);
    assert_eq!(engine.engine.beat_marker_index(), 0);
}

#[test]
fn test_pause_without_play_is_safe() {
    let mut engine = hammers_engine();
    engine.command(PlaybackCommand::Pause);
    assert!(!engine.is_playing());
    engine.run(100);
    assert!(engine.take_fired().is_empty());
}

#[test]
fn test_loop_with_invalid_beat_range() {
    let mut engine = hammers_engine();
    engine.command(PlaybackCommand::SetLoop(Some((0, 9999))));
    engine.command(PlaybackCommand::Play);
    engine.run(1_000_000);
    let fired = engine.take_fired();
    assert!(fired.len() > 184, "should loop at least once");
    for (position, beat_index) in fired.iter().take(184).enumerate() {
        assert_eq!(*beat_index, position);
    }
}

#[test]
fn test_rapid_seek_during_playback() {
    let mut engine = hammers_engine();
    engine.command(PlaybackCommand::Play);
    for target in [50, 0, 100, 30, 183, 0] {
        engine.run(20);
        engine.command(PlaybackCommand::SeekToBeat(target));
    }
    engine.run(1_000_000);
    let fired = engine.take_fired();
    assert!(!fired.is_empty());
    assert_eq!(*fired.last().unwrap(), 183);
}

#[test]
fn test_rapid_loop_changes() {
    let mut engine = hammers_engine();
    engine.command(PlaybackCommand::Play);
    for &(start, end) in &[(0, 15), (32, 47), (64, 79), (0, 31)] {
        engine.command(PlaybackCommand::SetLoop(Some((start, end))));
        engine.run(5000);
        engine.take_fired();
    }
    engine.run(100_000);
    let fired = engine.take_fired();
    assert_beats_in_range(&fired, 0, 31);
}

#[test]
fn test_metronome_events_do_not_affect_beat_markers() {
    let score = hammers_score();
    let tl_no_met = build_timeline(&score, 100, false);
    let tl_met = build_timeline(&score, 100, true);
    assert_eq!(tl_no_met.beat_markers.len(), tl_met.beat_markers.len());
    for (without, with) in tl_no_met.beat_markers.iter().zip(tl_met.beat_markers.iter()) {
        assert_eq!(without.beat_index, with.beat_index);
        assert_eq!(without.sample_position, with.sample_position);
    }
    assert!(tl_met.events.len() > tl_no_met.events.len());
}

#[test]
fn test_seek_outside_loop_does_not_fire_out_of_range() {
    let mut engine = hammers_engine();
    engine.command(PlaybackCommand::SetLoop(Some((0, 15))));
    engine.command(PlaybackCommand::Play);
    engine.run(1000);
    engine.take_fired();
    engine.command(PlaybackCommand::SeekToBeat(100));
    engine.run(100_000);
    let fired = engine.take_fired();
    assert!(!fired.contains(&100), "beat 100 should not fire inside loop [0,15]");
    assert_beats_in_range(&fired, 0, 15);
}

#[test]
fn test_seek_while_paused_then_play() {
    let mut engine = hammers_engine();
    engine.command(PlaybackCommand::Play);
    engine.run(200);
    engine.command(PlaybackCommand::Pause);
    engine.take_fired();
    engine.command(PlaybackCommand::SeekToBeat(80));
    assert!(!engine.is_playing());
    engine.command(PlaybackCommand::Play);
    engine.run(1_000_000);
    let fired = engine.take_fired();
    assert_eq!(fired[0], 80);
    assert_eq!(*fired.last().unwrap(), 183);
}

#[test]
fn test_loop_set_while_paused_then_play() {
    let mut engine = hammers_engine();
    engine.command(PlaybackCommand::SetLoop(Some((32, 47))));
    assert!(!engine.is_playing());
    engine.command(PlaybackCommand::Play);
    engine.run(200_000);
    let fired = engine.take_fired();
    let tail: Vec<_> = fired.iter().skip(fired.len().saturating_sub(48)).copied().collect();
    assert_beats_in_range(&tail, 32, 47);
}

#[test]
fn test_no_beats_fire_after_end_of_song() {
    let mut engine = hammers_engine();
    engine.command(PlaybackCommand::Play);
    engine.run(1_000_000);
    let first = engine.take_fired();
    assert_eq!(first.len(), 184);
    engine.run(10_000);
    assert!(engine.take_fired().is_empty());
}

#[test]
fn test_loop_survives_pause_resume() {
    let mut engine = hammers_engine();
    engine.command(PlaybackCommand::SetLoop(Some((0, 15))));
    engine.command(PlaybackCommand::Play);
    engine.run(10_000);
    engine.take_fired();
    engine.command(PlaybackCommand::Pause);
    engine.run(100);
    engine.command(PlaybackCommand::Play);
    engine.run(100_000);
    let fired = engine.take_fired();
    assert_beats_in_range(&fired, 0, 15);
}
