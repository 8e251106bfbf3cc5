use metronome::tab_models::{NoteDuration, ScoreBar, ScoreBeat, ScoreLayout, SongTempo, TabNote};
use metronome::tab_player_page::{song_title, time_signature_label, AudioRequest, PageAction, TabPlayerMessage, TabPlayerPage};

fn make_page() -> TabPlayerPage {
    TabPlayerPage::new()
}

fn quarter() -> NoteDuration {
    NoteDuration { value: 0, dotted: false, tuplet_enters: 1, tuplet_times: 1 }
}

/// Two bars of two beats each; beat 1 is a rest.
fn two_bar_score() -> ScoreLayout {
    let mut beats = Vec::new();
    for index in 0..4usize {
        let notes = if index == 1 { Vec::new() } else { vec![TabNote { string: 1, fret: index as u8 }] };
        beats.push(ScoreBeat { bar_index: index / 2, beat_index: index, duration: quarter(), is_rest: index == 1, notes });
    }
    let bars = vec![
        ScoreBar { index: 0, first_beat_index: 0, beat_count: 2, time_sig_num: 4, time_sig_denom: 4 },
        ScoreBar { index: 1, first_beat_index: 2, beat_count: 2, time_sig_num: 4, time_sig_denom: 4 },
    ];
    ScoreLayout { beats, bars, tracks: Vec::new(), title: String::new(), artist: String::new(), tempo: SongTempo::Bpm(120) }
}

#[test]
fn tab_player_page_test_initial_state() {
    let page = make_page();
    assert!(!page.is_playing);
    assert_eq!(page.current_beat, 0);
    assert!(page.score.is_none());
}

#[test]
fn test_play_without_score_is_noop() {
    let mut page = make_page();
    let actions = page.update(TabPlayerMessage::Play);
    assert!(!page.is_playing);
    assert!(actions.is_empty());
}

#[test]
fn test_stop_resets_state() {
    let mut page = make_page();
    page.is_playing = true;
    page.current_beat = 42;
    let actions = page.update(TabPlayerMessage::Stop);
    assert!(!page.is_playing);
    assert_eq!(page.current_beat, 0);
    assert_eq!(actions, vec![PageAction::Audio(AudioRequest::Pause), PageAction::Audio(AudioRequest::SeekToBeat(0))]);
}

#[test]
fn test_volume_clamped() {
    let mut page = make_page();
    page.update(TabPlayerMessage::SetGuitarVolume(200));
    assert_eq!(page.guitar_volume, 127);
}

#[test]
fn test_toggle_loop() {
    let mut page = make_page();
    assert!(!page.loop_active);
    let first = page.update(TabPlayerMessage::ToggleLoop);
    assert!(page.loop_active);
    assert!(first.is_empty());
    let second = page.update(TabPlayerMessage::ToggleLoop);
    assert!(!page.loop_active);
    assert_eq!(second, vec![PageAction::Audio(AudioRequest::ClearLoop)]);
}

#[test]
fn test_toggle_metronome() {
    let mut page = make_page();
    assert!(!page.metronome_enabled);
    let actions = page.update(TabPlayerMessage::ToggleMetronome);
    assert!(page.metronome_enabled);
    assert_eq!(actions, vec![PageAction::RebuildTimeline]);
}

#[test]
fn test_cycle_tone() {
    let mut page = make_page();
    assert_eq!(page.tone_index, 0);
    let first = page.update(TabPlayerMessage::CycleTone);
    assert_eq!(page.tone_index, 1);
    assert_eq!(first, vec![PageAction::Audio(AudioRequest::SetGuitarProgram(29))]);
    page.update(TabPlayerMessage::CycleTone);
    assert_eq!(page.tone_index, 2);
    let third = page.update(TabPlayerMessage::CycleTone);
    assert_eq!(page.tone_index, 0);
    assert_eq!(third, vec![PageAction::Audio(AudioRequest::SetGuitarProgram(25))]);
}

#[test]
fn test_on_beat_updates_position() {
    let mut page = make_page();
    page.update(TabPlayerMessage::OnBeat(42));
    assert_eq!(page.current_beat, 42);
}

#[test]
fn test_on_beat_max_is_noop() {
    let mut page = make_page();
    page.current_beat = 5;
    page.update(TabPlayerMessage::OnBeat(usize::MAX));
    assert_eq!(page.current_beat, usize::MAX);
}

#[test]
fn test_play_with_score_starts() {
    let mut page = make_page();
    page.set_score(two_bar_score(), 0);
    let actions = page.update(TabPlayerMessage::Play);
    assert!(page.is_playing);
    assert_eq!(actions, vec![PageAction::Audio(AudioRequest::Play)]);
}

#[test]
fn test_next_and_prev_bar_seek_to_bar_start() {
    let mut page = make_page();
    page.set_score(two_bar_score(), 0);
    page.update(TabPlayerMessage::SeekToBeat(1));
    let next = page.update(TabPlayerMessage::NextBar);
    assert_eq!(page.current_beat, 2);
    assert_eq!(next, vec![PageAction::Audio(AudioRequest::SeekToBeat(2))]);
    page.update(TabPlayerMessage::NextBar);
    assert_eq!(page.current_beat, 2);
    page.update(TabPlayerMessage::PrevBar);
    assert_eq!(page.current_beat, 0);
    page.update(TabPlayerMessage::PrevBar);
    assert_eq!(page.current_beat, 0);
}

#[test]
fn test_on_beat_shows_notes_and_stops_at_end() {
    let mut page = make_page();
    page.set_score(two_bar_score(), 0);
    page.update(TabPlayerMessage::Play);
    let actions = page.update(TabPlayerMessage::OnBeat(2));
    assert_eq!(actions, vec![PageAction::MarkBeat(2), PageAction::ShowNotes(vec![(1, 2)])]);
    assert!(page.is_playing);
    let rest = page.update(TabPlayerMessage::OnBeat(1));
    assert_eq!(rest, vec![PageAction::MarkBeat(1)]);
    page.update(TabPlayerMessage::OnBeat(3));
    assert!(!page.is_playing);
}

#[test]
fn test_on_last_beat_keeps_playing_with_loop() {
    let mut page = make_page();
    page.set_score(two_bar_score(), 0);
    page.update(TabPlayerMessage::Play);
    page.update(TabPlayerMessage::ToggleLoop);
    page.update(TabPlayerMessage::OnBeat(3));
    assert!(page.is_playing);
}

#[test]
fn test_set_track_reloads() {
    let mut page = make_page();
    page.current_beat = 7;
    let actions = page.update(TabPlayerMessage::SetTrack(2));
    assert_eq!(page.selected_track, 2);
    assert_eq!(page.current_beat, 0);
    assert_eq!(actions, vec![PageAction::ReloadTrack]);
}

#[test]
fn play_pause_toggles() {
    let mut page = make_page();
    page.set_score(two_bar_score(), 0);
    assert_eq!(page.update(TabPlayerMessage::TogglePlayPause), vec![PageAction::Audio(AudioRequest::Play)]);
    assert!(page.is_playing);
    assert_eq!(page.update(TabPlayerMessage::TogglePlayPause), vec![PageAction::Audio(AudioRequest::Pause)]);
    assert!(!page.is_playing);
}

#[test]
fn count_in_cycles_and_is_played_before_the_song() {
    let mut page = make_page();
    page.set_score(two_bar_score(), 0);
    let mut seen = Vec::new();
    for _ in 0..4 {
        page.update(TabPlayerMessage::CycleCountIn);
        seen.push(page.count_in_bars);
    }
    assert_eq!(seen, vec![1, 2, 4, 0]);
    page.update(TabPlayerMessage::CycleCountIn);
    let actions = page.update(TabPlayerMessage::Play);
    assert_eq!(actions, vec![PageAction::Audio(AudioRequest::PlayWithCountIn { bars: 1, beats_per_bar: 4 })]);
}

#[test]
fn count_in_without_bars_counts_four() {
    let mut page = make_page();
    let mut score = two_bar_score();
    score.bars.clear();
    page.set_score(score, 0);
    page.update(TabPlayerMessage::CycleCountIn);
    let actions = page.update(TabPlayerMessage::TogglePlayPause);
    assert_eq!(actions, vec![PageAction::Audio(AudioRequest::PlayWithCountIn { bars: 1, beats_per_bar: 4 })]);
}

#[test]
fn loop_on_bar_covers_the_beats_of_the_bar() {
    let mut page = make_page();
    page.set_score(two_bar_score(), 0);
    let actions = page.update(TabPlayerMessage::SetLoopOnBar(3));
    assert_eq!(actions, vec![PageAction::Audio(AudioRequest::SetLoop(2, 3))]);
    assert!(page.loop_active);
    assert!(page.update(TabPlayerMessage::SetLoopOnBar(9)).is_empty());
    assert_eq!(page.update(TabPlayerMessage::ClearLoop), vec![PageAction::Audio(AudioRequest::ClearLoop)]);
    assert!(!page.loop_active);
}

#[test]
fn loop_range_is_sent_as_given() {
    let mut page = make_page();
    let actions = page.update(TabPlayerMessage::SetLoopRange(1, 2));
    assert_eq!(actions, vec![PageAction::Audio(AudioRequest::SetLoop(1, 2))]);
    assert!(page.loop_active);
}

#[test]
fn the_song_title_prefers_the_score_metadata() {
    assert_eq!(song_title("Song", "Band", Some("file")), "Song \u{2014} Band");
    assert_eq!(song_title("Song", "", None), "Song");
    assert_eq!(song_title("", "Band", Some("file")), "file");
    assert_eq!(song_title("", "", None), "Untitled");
    assert_eq!(time_signature_label(6, 8), "6/8");
}
