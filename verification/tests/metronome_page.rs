use metronome::metronome_page::{beat_marks, MetronomeMessage, MetronomePage, BPB_MAX, BPB_MIN, BPM_MAX, BPM_MIN};
use metronome::settings::Settings;

fn make_page() -> MetronomePage {
    MetronomePage::new()
}

#[test]
fn metronome_page_test_initial_state() {
    let page = make_page();
    assert_eq!(page.bpm, 100);
    assert_eq!(page.beats_per_bar, 4);
    assert!(!page.is_playing);
    assert_eq!(page.current_beat, 0);
}

#[test]
fn test_set_bpm() {
    let mut page = make_page();
    page.update(MetronomeMessage::SetBpm(120));
    assert_eq!(page.bpm, 120);
}

#[test]
fn test_bpm_clamped_to_range() {
    let mut page = make_page();
    page.update(MetronomeMessage::SetBpm(0));
    assert_eq!(page.bpm, BPM_MIN);
    page.update(MetronomeMessage::SetBpm(999));
    assert_eq!(page.bpm, BPM_MAX);
}

#[test]
fn test_increment_decrement_bpm() {
    let mut page = make_page();
    page.update(MetronomeMessage::IncrementBpm);
    assert_eq!(page.bpm, 101);
    page.update(MetronomeMessage::DecrementBpm);
    assert_eq!(page.bpm, 100);
}

#[test]
fn test_decrement_bpm_at_minimum() {
    let mut page = make_page();
    page.update(MetronomeMessage::SetBpm(BPM_MIN));
    page.update(MetronomeMessage::DecrementBpm);
    assert_eq!(page.bpm, BPM_MIN);
}

#[test]
fn test_increment_decrement_bpb() {
    let mut page = make_page();
    assert_eq!(page.beats_per_bar, 4);
    page.update(MetronomeMessage::IncrementBpb);
    assert_eq!(page.beats_per_bar, 5);
    page.update(MetronomeMessage::DecrementBpb);
    assert_eq!(page.beats_per_bar, 4);
}

#[test]
fn test_bpb_clamped_to_range() {
    let mut page = make_page();
    for _ in 0..200 {
        page.update(MetronomeMessage::IncrementBpb);
    }
    assert_eq!(page.beats_per_bar, BPB_MAX);
    for _ in 0..200 {
        page.update(MetronomeMessage::DecrementBpb);
    }
    assert_eq!(page.beats_per_bar, BPB_MIN);
}

#[test]
fn test_tick_advances_beat() {
    let mut page = make_page();
    page.is_playing = true;
    page.beats_per_bar = 4;
    page.update(MetronomeMessage::Tick);
    assert_eq!(page.current_beat, 1);
    page.update(MetronomeMessage::Tick);
    assert_eq!(page.current_beat, 2);
    page.update(MetronomeMessage::Tick);
    assert_eq!(page.current_beat, 3);
    page.update(MetronomeMessage::Tick);
    assert_eq!(page.current_beat, 0);
}

#[test]
fn test_tick_does_nothing_when_stopped() {
    let mut page = make_page();
    page.is_playing = false;
    page.update(MetronomeMessage::Tick);
    assert_eq!(page.current_beat, 0);
}

#[test]
fn test_toggle_play() {
    let mut page = make_page();
    assert!(!page.is_playing);
    page.update(MetronomeMessage::TogglePlay);
    assert!(page.is_playing);
    page.update(MetronomeMessage::TogglePlay);
    assert!(!page.is_playing);
}

#[test]
fn test_stop_resets_beat() {
    let mut page = make_page();
    page.is_playing = true;
    page.current_beat = 3;
    page.update(MetronomeMessage::TogglePlay);
    assert_eq!(page.current_beat, 0);
}

#[test]
fn test_tick_wraparound_bpb_one() {
    let mut page = make_page();
    page.is_playing = true;
    page.beats_per_bar = 1;
    page.update(MetronomeMessage::Tick);
    assert_eq!(page.current_beat, 0);
}

#[test]
fn test_tick_wraparound_bpb_max() {
    let mut page = make_page();
    page.is_playing = true;
    page.beats_per_bar = BPB_MAX;
    for _ in 0..BPB_MAX as u32 {
        page.update(MetronomeMessage::Tick);
    }
    assert_eq!(page.current_beat, 0);
}

#[test]
fn test_current_beat_clamped_after_bpb_decrease() {
    let mut page = make_page();
    page.is_playing = true;
    page.beats_per_bar = 8;
    page.current_beat = 7;
    page.update(MetronomeMessage::DecrementBpb);
    assert_eq!(page.current_beat, 0);
}

#[test]
fn test_current_beat_unchanged_after_bpb_decrease_if_valid() {
    let mut page = make_page();
    page.is_playing = true;
    page.beats_per_bar = 8;
    page.current_beat = 3;
    page.update(MetronomeMessage::DecrementBpb);
    assert_eq!(page.current_beat, 3);
}

#[test]
fn test_pause_preserves_beat_stop_resets() {
    let mut page = make_page();
    page.is_playing = true;
    page.current_beat = 5;
    page.update(MetronomeMessage::TogglePlay);
    assert!(!page.is_playing);
    assert_eq!(page.current_beat, 0);
}

#[test]
fn test_play_pause_play_bpm_preserved() {
    let mut page = make_page();
    page.update(MetronomeMessage::SetBpm(180));
    page.update(MetronomeMessage::TogglePlay);
    assert!(page.is_playing);
    assert_eq!(page.bpm, 180);
    page.update(MetronomeMessage::TogglePlay);
    page.update(MetronomeMessage::TogglePlay);
    assert_eq!(page.bpm, 180);
}

#[test]
fn test_restore_applies_values() {
    let mut page = make_page();
    let mut settings = Settings::default();
    settings.bpm = 200;
    settings.beats_per_bar = 7;
    page.restore(&settings);
    assert_eq!(page.bpm, 200);
    assert_eq!(page.beats_per_bar, 7);
}

#[test]
fn test_save_captures_current_state() {
    let mut page = make_page();
    page.update(MetronomeMessage::SetBpm(175));
    page.update(MetronomeMessage::IncrementBpb);
    let mut settings = Settings::default();
    page.save(&mut settings);
    assert_eq!(settings.bpm, 175);
    assert_eq!(settings.beats_per_bar, 5);
}

#[test]
fn test_tick_click_accents_bar_start() {
    let mut page = make_page();
    page.is_playing = true;
    page.beats_per_bar = 2;
    assert_eq!(page.update(MetronomeMessage::Tick), Some(false));
    assert_eq!(page.update(MetronomeMessage::Tick), Some(true));
    page.is_playing = false;
    assert_eq!(page.update(MetronomeMessage::Tick), None);
}

#[test]
fn test_increment_bpm_at_maximum_stays() {
    let mut page = make_page();
    page.update(MetronomeMessage::SetBpm(BPM_MAX));
    page.update(MetronomeMessage::IncrementBpm);
    assert_eq!(page.bpm, BPM_MAX);
}

#[test]
fn test_default_settings() {
    let settings = Settings::default();
    assert_eq!(settings.bpm, 100);
    assert_eq!(settings.beats_per_bar, 4);
    assert_eq!(settings.tab_guitar_volume, 100);
    assert_eq!(settings.tab_metronome_volume, 100);
    assert!(!settings.tab_metronome_enabled);
    assert_eq!(settings.scale_root, 0);
}

#[test]
fn the_bar_display_marks_the_sounding_beat() {
    assert_eq!(beat_marks(0, 4, true), vec!["O", ".", ".", "."]);
    assert_eq!(beat_marks(2, 4, true), vec![".", ".", "o", "."]);
    assert_eq!(beat_marks(2, 4, false), vec![".", ".", ".", "."]);
    assert!(beat_marks(0, 0, true).is_empty());
}
