use metronome::tab_models::ScoreBar;
use metronome::tab_strip::{bar_boundaries, snap_to_bar_boundary, StripKey, StripSignal, TabStripState};

fn bar(index: usize, first_beat_index: usize, num: u8, denom: u8) -> ScoreBar {
    ScoreBar { index, first_beat_index, beat_count: 4, time_sig_num: num, time_sig_denom: denom }
}

fn strip() -> TabStripState {
    let mut strip = TabStripState::new();
    let bars = vec![bar(0, 0, 4, 4), bar(1, 4, 4, 4), bar(2, 8, 3, 4)];
    strip.set_score(&bars, 11);
    strip
}

#[test]
fn time_signatures_show_where_they_change() {
    let bars = vec![bar(0, 0, 4, 4), bar(1, 4, 4, 4), bar(2, 8, 3, 4), bar(3, 11, 3, 4)];
    let shown: Vec<bool> = bar_boundaries(&bars).iter().map(|b| b.show_time_sig).collect();
    assert_eq!(shown, vec![true, false, true, false]);
    let starts: Vec<usize> = bar_boundaries(&bars).iter().map(|b| b.beat_index).collect();
    assert_eq!(starts, vec![0, 4, 8, 11]);
}

#[test]
fn snapping_finds_bar_boundaries() {
    let bars = vec![bar(0, 0, 4, 4), bar(1, 4, 4, 4), bar(2, 8, 4, 4)];
    let boundaries = bar_boundaries(&bars);
    assert_eq!(snap_to_bar_boundary(&boundaries, 1, 1, 11), 3);
    assert_eq!(snap_to_bar_boundary(&boundaries, 3, 1, 11), 7);
    assert_eq!(snap_to_bar_boundary(&boundaries, 9, 1, 11), 11);
    assert_eq!(snap_to_bar_boundary(&boundaries, 1, 1, 2), 2);
    assert_eq!(snap_to_bar_boundary(&boundaries, 6, -1, 11), 4);
    assert_eq!(snap_to_bar_boundary(&boundaries, 4, -1, 11), 0);
    assert_eq!(snap_to_bar_boundary(&boundaries, 9, -1, 11), 8);
    assert_eq!(snap_to_bar_boundary(&boundaries, 0, -1, 11), 0);
}

#[test]
fn arrows_move_the_cursor_and_seek() {
    let mut strip = strip();
    let outcome = strip.key_pressed(StripKey::Right, false, false);
    assert!(outcome.handled);
    assert_eq!(outcome.signals, vec![StripSignal::BeatSeeked(1)]);
    assert_eq!(outcome.scroll_to, Some(1));
    assert_eq!(strip.cursor.current_beat, 1);
    assert_eq!(strip.cursor.selection_anchor, 1);

    let outcome = strip.key_pressed(StripKey::Left, false, false);
    assert_eq!(outcome.signals, vec![StripSignal::BeatSeeked(0)]);
    let outcome = strip.key_pressed(StripKey::Left, false, false);
    assert_eq!(outcome.signals, vec![StripSignal::BeatSeeked(0)]);
    assert_eq!(outcome.scroll_to, None);
}

#[test]
fn ctrl_arrows_jump_to_bar_boundaries() {
    let mut strip = strip();
    strip.key_pressed(StripKey::Right, false, false);
    strip.key_pressed(StripKey::Right, false, true);
    assert_eq!(strip.cursor.current_beat, 3);
    strip.key_pressed(StripKey::Right, false, true);
    assert_eq!(strip.cursor.current_beat, 7);
    strip.key_pressed(StripKey::Right, false, true);
    assert_eq!(strip.cursor.current_beat, 10);
    strip.key_pressed(StripKey::Left, false, true);
    assert_eq!(strip.cursor.current_beat, 8);
}

#[test]
fn shift_arrows_extend_the_selection_from_the_anchor() {
    let mut strip = strip();
    strip.key_pressed(StripKey::Right, false, false);
    let outcome = strip.key_pressed(StripKey::Right, true, false);
    assert_eq!(outcome.signals, vec![StripSignal::LoopRangeChanged(1, 2)]);
    assert_eq!(outcome.scroll_to, Some(2));
    strip.key_pressed(StripKey::Right, true, false);
    assert_eq!((strip.cursor.loop_start_beat, strip.cursor.loop_end_beat), (1, 3));
    let outcome = strip.key_pressed(StripKey::Left, true, false);
    assert_eq!(outcome.signals, vec![StripSignal::LoopRangeChanged(1, 2)]);
}

#[test]
fn moving_the_cursor_clears_the_loop() {
    let mut strip = strip();
    strip.key_pressed(StripKey::Right, false, false);
    strip.key_pressed(StripKey::Right, true, false);
    let outcome = strip.key_pressed(StripKey::Right, false, false);
    assert_eq!(outcome.signals, vec![StripSignal::LoopCleared, StripSignal::BeatSeeked(2)]);
}

#[test]
fn escape_drops_the_selection() {
    let mut strip = strip();
    strip.key_pressed(StripKey::Right, true, false);
    let outcome = strip.key_pressed(StripKey::Escape, false, false);
    assert!(outcome.handled);
    assert_eq!(outcome.signals, vec![StripSignal::LoopCleared]);
    assert_eq!(strip.cursor.selection_anchor, -1);
    let outcome = strip.key_pressed(StripKey::Escape, false, false);
    assert!(outcome.handled);
    // the page answers the signal by clearing the range; until then the
    // strip still holds it
    assert_eq!(outcome.signals, vec![StripSignal::LoopCleared]);
}

#[test]
fn other_keys_and_empty_strips_pass_through() {
    let mut strip = strip();
    assert!(!strip.key_pressed(StripKey::Other, false, false).handled);
    let mut empty = TabStripState::new();
    assert!(!empty.key_pressed(StripKey::Right, false, false).handled);
    assert_eq!(empty.cursor.current_beat, -1);
}

#[test]
fn a_click_moves_the_cursor() {
    let mut strip = strip();
    assert!(strip.drag_begin(0, 5, false).signals.is_empty());
    let outcome = strip.drag_end();
    assert_eq!(outcome.signals, vec![StripSignal::BeatSeeked(5)]);
    assert_eq!(outcome.scroll_to, Some(5));
    assert_eq!(strip.cursor.current_beat, 5);
    assert_eq!(strip.cursor.selection_anchor, 5);
}

#[test]
fn a_small_movement_is_still_a_click() {
    let mut strip = strip();
    strip.drag_begin(0, 5, false);
    assert!(strip.drag_update(5, false).signals.is_empty());
    assert_eq!(strip.drag_end().signals, vec![StripSignal::BeatSeeked(5)]);
}

#[test]
fn dragging_selects_a_loop() {
    let mut strip = strip();
    strip.drag_begin(0, 6, false);
    let outcome = strip.drag_update(2, true);
    assert_eq!(outcome.signals, vec![StripSignal::LoopRangeChanged(2, 6)]);
    assert!(strip.drag_end().signals.is_empty());
    assert_eq!((strip.cursor.loop_start_beat, strip.cursor.loop_end_beat), (2, 6));
}

#[test]
fn shift_click_extends_from_the_anchor() {
    let mut strip = strip();
    strip.drag_begin(0, 3, false);
    strip.drag_end();
    let outcome = strip.drag_begin(0, 7, true);
    assert_eq!(outcome.signals, vec![StripSignal::LoopRangeChanged(3, 7)]);
    assert!(strip.drag_end().signals.is_empty());
}

#[test]
fn dragging_a_handle_moves_that_edge() {
    let mut strip = strip();
    strip.set_loop_range(2, 6);
    strip.drag_begin(2, 6, false);
    assert_eq!(strip.cursor.dragging_handle, 2);
    let outcome = strip.drag_update(9, true);
    assert_eq!(outcome.signals, vec![StripSignal::LoopRangeChanged(2, 9)]);
    strip.drag_begin(1, 2, false);
    let outcome = strip.drag_update(10, true);
    assert_eq!(outcome.signals, vec![StripSignal::LoopRangeChanged(9, 10)]);
}

#[test]
fn handles_are_ignored_without_a_loop() {
    let mut strip = strip();
    strip.drag_begin(1, 4, false);
    assert_eq!(strip.cursor.dragging_handle, 0);
    assert_eq!(strip.cursor.drag_start_beat, 4);
}
