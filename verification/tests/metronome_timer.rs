use metronome::metronome_timer::{
    beat_nanos, TimerCommand, TimerState, BPB_DEFAULT, BPB_MAX, BPM_DEFAULT, BPM_MAX, RAMP_BARS_DEFAULT, RAMP_INCREMENT_DEFAULT,
};

fn four_beats(timer: &mut TimerState) -> Vec<metronome::metronome_timer::BeatOutcome> {
    (0..4).map(|_| timer.beat()).collect()
}

#[test]
fn first_beat_of_a_bar_is_accented() {
    let mut timer = TimerState::start(4, 120, false, 5, 4, 140);
    let outcomes = four_beats(&mut timer);
    let accents: Vec<bool> = outcomes.iter().map(|o| o.accent).collect();
    assert_eq!(accents, vec![true, false, false, false]);
    assert_eq!(timer.beat_in_bar, 0);
    assert_eq!(timer.bars_completed, 1);
    assert!(outcomes.iter().all(|o| o.new_bpm.is_none() && o.status.is_none()));
}

#[test]
fn a_bar_of_one_beat_is_never_accented() {
    let mut timer = TimerState::start(1, 120, false, 5, 4, 140);
    assert!(!timer.beat().accent);
    assert!(!timer.beat().accent);
    assert_eq!(timer.bars_completed, 2);
}

#[test]
fn ramp_raises_the_tempo_every_interval_up_to_the_target() {
    let mut timer = TimerState::start(4, 100, true, 5, 2, 110);
    let bar1 = four_beats(&mut timer);
    assert_eq!(bar1[3].status.as_deref(), Some("Bar 1/2 \u{2022} next: 105 BPM"));
    assert_eq!(bar1[3].new_bpm, None);

    let bar2 = four_beats(&mut timer);
    assert_eq!(bar2[3].new_bpm, Some(105));
    assert_eq!(bar2[3].status.as_deref(), Some("Bar 1/2 \u{2022} next: 110 BPM"));
    assert_eq!(timer.current_bpm, 105);
    assert_eq!(timer.bars_completed, 0);

    let bar3 = four_beats(&mut timer);
    assert_eq!(bar3[3].status.as_deref(), Some("Bar 1/2 \u{2022} next: 110 BPM"));
    let bar4 = four_beats(&mut timer);
    assert_eq!(bar4[3].new_bpm, Some(110));
    assert_eq!(bar4[3].status.as_deref(), Some("Reached target: 110 BPM"));

    let bar5 = four_beats(&mut timer);
    assert_eq!(bar5[3].new_bpm, None);
    assert_eq!(bar5[3].status.as_deref(), Some("Reached target: 110 BPM"));
    assert_eq!(timer.current_bpm, 110);
}

#[test]
fn ramp_never_passes_the_highest_tempo() {
    let mut timer = TimerState::start(1, 255, true, 50, 1, 300);
    let outcome = timer.beat();
    assert_eq!(outcome.new_bpm, Some(260));
    assert_eq!(timer.current_bpm, 260);
}

#[test]
fn commands_reset_the_bar_count() {
    let mut timer = TimerState::start(4, 100, true, 5, 4, 140);
    four_beats(&mut timer);
    timer.beat();
    assert_eq!(timer.bars_completed, 1);
    assert_eq!(timer.beat_in_bar, 1);

    timer.apply(TimerCommand::Bpm(100));
    assert_eq!(timer.bars_completed, 1);

    timer.apply(TimerCommand::Bpm(90));
    assert_eq!(timer.current_bpm, 90);
    assert_eq!(timer.bars_completed, 0);
    assert_eq!(timer.beat_in_bar, 1);

    timer.apply(TimerCommand::BeatsPerBar(3));
    assert_eq!(timer.beats_per_bar, 3);
    assert_eq!(timer.beat_in_bar, 0);

    timer.apply(TimerCommand::TempoRamp { enabled: false, increment: 2, bars_interval: 8, target_bpm: 120 });
    assert!(!timer.ramp_enabled);
    assert_eq!(timer.ramp_increment, 2);
    assert_eq!(timer.ramp_bars_interval, 8);
    assert_eq!(timer.ramp_target_bpm, 120);
}

#[test]
fn beat_length_follows_the_tempo() {
    assert_eq!(beat_nanos(120), 500_000_000);
    assert_eq!(beat_nanos(60), 1_000_000_000);
    assert_eq!(beat_nanos(260), 230_769_230);
}

#[test]
fn beats_need_a_bar_with_beats() {
    let timer = TimerState::start(0, 120, false, 5, 4, 140);
    assert!(!timer.can_beat());
    let timer = TimerState::start(4, 120, true, 5, 4, 140);
    assert!(timer.can_beat());
    let mut near_end = TimerState::start(1, u32::MAX - 1, true, 5, 1, u32::MAX);
    near_end.bars_completed = 0;
    assert!(!near_end.can_beat());
}

fn default_timer() -> TimerState {
    TimerState::start(BPB_DEFAULT, BPM_DEFAULT, false, RAMP_INCREMENT_DEFAULT, RAMP_BARS_DEFAULT, BPM_MAX)
}

#[test]
fn test_beats_per_bar_defaults_to_four() {
    let timer = default_timer();
    assert_eq!(timer.beats_per_bar, BPB_DEFAULT);
    assert_eq!(BPB_DEFAULT, 4);
}

#[test]
fn test_beats_per_bar_accepts_values_above_old_limit() {
    let mut timer = default_timer();
    timer.apply(TimerCommand::BeatsPerBar(24));
    assert_eq!(timer.beats_per_bar, 24);
}

#[test]
fn test_beats_per_bar_accepts_max() {
    let mut timer = default_timer();
    timer.apply(TimerCommand::BeatsPerBar(BPB_MAX));
    assert_eq!(timer.beats_per_bar, BPB_MAX);
}
