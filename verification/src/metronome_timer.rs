//! The metronome timer's decisions: on each beat, which click sounds, where
//! the bar stands, and when the tempo ramp raises the tempo; and what each
//! setting change does. The timer thread measures time and plays the
//! clicks; it hands the changes and the beats over here.
use vstd::prelude::*;
use crate::text::{decimal, push_decimal, push_text};

verus! {

pub const BPM_MIN: u32 = 20;
pub const BPM_MAX: u32 = 260;
pub const BPM_DEFAULT: u32 = 100;
pub const BPB_MIN: u32 = 1;
pub const BPB_MAX: u32 = 99;
pub const BPB_DEFAULT: u32 = 4;
pub const RAMP_INCREMENT_MIN: u32 = 1;
pub const RAMP_INCREMENT_MAX: u32 = 50;
pub const RAMP_INCREMENT_DEFAULT: u32 = 5;
pub const RAMP_BARS_MIN: u32 = 1;
pub const RAMP_BARS_MAX: u32 = 32;
pub const RAMP_BARS_DEFAULT: u32 = 4;

/// A change sent to the running timer.
#[derive(Debug, Clone, Copy, PartialEq, Eq, Structural)]
pub enum TimerCommand {
    Bpm(u32),
    BeatsPerBar(u32),
    TempoRamp { enabled: bool, increment: u32, bars_interval: u32, target_bpm: u32 },
}

#[derive(Debug, Clone, Copy, PartialEq, Eq, Structural)]
pub struct TimerState {
    pub beats_per_bar: u32,
    pub current_bpm: u32,
    pub beat_in_bar: u32,
    pub bars_completed: u32,
    pub ramp_enabled: bool,
    pub ramp_increment: u32,
    pub ramp_bars_interval: u32,
    pub ramp_target_bpm: u32,
}

/// What a beat does besides the state change.
#[derive(Debug, Clone, PartialEq)]
pub struct BeatOutcome {
    /// The accented (high) click, else the plain one.
    pub accent: bool,
    /// The ramp's new tempo, for the timer and the interface.
    pub new_bpm: Option<u32>,
    /// The ramp's status line for the interface.
    pub status: Option<String>,
}

pub open spec fn ramp_next(s: TimerState) -> u32 {
    let raised = s.current_bpm + s.ramp_increment;
    let capped = if raised < s.ramp_target_bpm { raised } else { s.ramp_target_bpm as int };
    (if capped < BPM_MAX { capped } else { BPM_MAX as int }) as u32
}

pub open spec fn reached_text(bpm: u32) -> Seq<char> {
    "Reached target: "@ + decimal(bpm as nat) + " BPM"@
}

pub open spec fn progress_text(done: nat, total: u32, next: u32) -> Seq<char> {
    "Bar "@ + decimal(done) + "/"@ + decimal(total as nat) + " \u{2022} next: "@ + decimal(next as nat) + " BPM"@
}

/// The ramp's status: the target reached, or the bars done and the next tempo.
pub open spec fn ramp_status(s: TimerState, done: nat) -> Seq<char> {
    if s.current_bpm >= s.ramp_target_bpm {
        reached_text(s.current_bpm)
    } else {
        progress_text(done, s.ramp_bars_interval, ramp_next(s))
    }
}

pub open spec fn command_effect(s: TimerState, command: TimerCommand) -> TimerState {
    match command {
        TimerCommand::Bpm(bpm) => if bpm != s.current_bpm {
            TimerState { current_bpm: bpm, bars_completed: 0, ..s }
        } else {
            s
        },
        TimerCommand::BeatsPerBar(bpb) => TimerState { beat_in_bar: 0, beats_per_bar: bpb, bars_completed: 0, ..s },
        TimerCommand::TempoRamp { enabled, increment, bars_interval, target_bpm } => TimerState {
            ramp_enabled: enabled,
            ramp_increment: increment,
            ramp_bars_interval: bars_interval,
            ramp_target_bpm: target_bpm,
            bars_completed: 0,
            ..s
        },
    }
}

/// One beat: the first beat of a bar of several beats is accented; at the
/// end of each bar the bar count goes up, and with the ramp on, after the
/// ramp's number of bars below the target, the tempo goes up by the
/// increment (to at most the target and 260).
pub open spec fn beat_effect(s: TimerState) -> (TimerState, bool, Option<u32>, Option<Seq<char>>) {
    let accent = s.beat_in_bar == 0 && s.beats_per_bar > 1;
    let beat = ((s.beat_in_bar + 1) % (s.beats_per_bar as int)) as u32;
    let moved = TimerState { beat_in_bar: beat, ..s };
    if beat != 0 {
        (moved, accent, None, None)
    } else {
        let counted = TimerState { bars_completed: (s.bars_completed + 1) as u32, ..moved };
        if !s.ramp_enabled {
            (counted, accent, None, None)
        } else if counted.bars_completed >= s.ramp_bars_interval && s.current_bpm < s.ramp_target_bpm {
            let reset = TimerState { bars_completed: 0, ..counted };
            let new_bpm = ramp_next(s);
            if new_bpm != s.current_bpm {
                let raised = TimerState { current_bpm: new_bpm, ..reset };
                (raised, accent, Some(new_bpm), Some(ramp_status(raised, 1)))
            } else {
                (reset, accent, None, None)
            }
        } else {
            (counted, accent, None, Some(ramp_status(counted, counted.bars_completed as nat)))
        }
    }
}

/// Whether this beat ends a bar.
pub open spec fn ends_bar(s: TimerState) -> bool {
    (s.beat_in_bar + 1) % (s.beats_per_bar as int) == 0
}

/// Whether this beat raises the tempo.
pub open spec fn raises(s: TimerState) -> bool {
    &&& ends_bar(s)
    &&& s.ramp_enabled
    &&& s.bars_completed + 1 >= s.ramp_bars_interval
    &&& s.current_bpm < s.ramp_target_bpm
    &&& ramp_next(s) != s.current_bpm
}

/// A beat can be taken: a bar has a beat, and the counts and tempo sums
/// the beat makes fit 32 bits.
pub open spec fn beat_allowed(s: TimerState) -> bool {
    &&& s.beats_per_bar > 0
    &&& s.beat_in_bar < u32::MAX
    &&& (ends_bar(s) ==> s.bars_completed < u32::MAX)
    &&& (ends_bar(s) && s.ramp_enabled ==> s.current_bpm + s.ramp_increment <= u32::MAX)
    &&& (raises(s) ==> ramp_next(s) + s.ramp_increment <= u32::MAX)
}

impl TimerState {
    /// The timer as it starts: the settings' meter, tempo and ramp.
    pub fn start(beats_per_bar: u32, bpm: u32, ramp_enabled: bool, ramp_increment: u32, ramp_bars_interval: u32, ramp_target_bpm: u32) -> (s: TimerState)
        ensures
            s == (TimerState {
                beats_per_bar,
                current_bpm: bpm,
                beat_in_bar: 0,
                bars_completed: 0,
                ramp_enabled,
                ramp_increment,
                ramp_bars_interval,
                ramp_target_bpm,
            }),
    {
        TimerState {
            beats_per_bar,
            current_bpm: bpm,
            beat_in_bar: 0,
            bars_completed: 0,
            ramp_enabled,
            ramp_increment,
            ramp_bars_interval,
            ramp_target_bpm,
        }
    }

    pub fn apply(&mut self, command: TimerCommand)
        ensures
            *final(self) == command_effect(*old(self), command),
    {
        match command {
            TimerCommand::Bpm(bpm) => {
                if bpm != self.current_bpm {
                    self.current_bpm = bpm;
                    self.bars_completed = 0;
                }
            },
            TimerCommand::BeatsPerBar(bpb) => {
                self.beat_in_bar = 0;
                self.beats_per_bar = bpb;
                self.bars_completed = 0;
            },
            TimerCommand::TempoRamp { enabled, increment, bars_interval, target_bpm } => {
                self.ramp_enabled = enabled;
                self.ramp_increment = increment;
                self.ramp_bars_interval = bars_interval;
                self.ramp_target_bpm = target_bpm;
                self.bars_completed = 0;
            },
        }
    }

    fn next_bpm(&self) -> (next: u32)
        requires
            self.current_bpm + self.ramp_increment <= u32::MAX,
        ensures
            next == ramp_next(*self),
    {
        let raised = self.current_bpm + self.ramp_increment;
        let capped = if raised < self.ramp_target_bpm { raised } else { self.ramp_target_bpm };
        if capped < BPM_MAX { capped } else { BPM_MAX }
    }

    fn status(&self, done: u32) -> (text: String)
        requires
            self.current_bpm + self.ramp_increment <= u32::MAX,
        ensures
            text@ == ramp_status(*self, done as nat),
    {
        let mut text = String::new();
        if self.current_bpm >= self.ramp_target_bpm {
            push_text(&mut text, "Reached target: ");
            push_decimal(&mut text, self.current_bpm as u64);
            push_text(&mut text, " BPM");
        } else {
            let next = self.next_bpm();
            push_text(&mut text, "Bar ");
            push_decimal(&mut text, done as u64);
            push_text(&mut text, "/");
            push_decimal(&mut text, self.ramp_bars_interval as u64);
            push_text(&mut text, " \u{2022} next: ");
            push_decimal(&mut text, next as u64);
            push_text(&mut text, " BPM");
        }
        assert(text@ =~= ramp_status(*self, done as nat));
        text
    }

    /// Whether the next beat can be taken (see `beat_allowed`).
    pub fn can_beat(&self) -> (allowed: bool)
        ensures
            allowed == beat_allowed(*self),
    {
        if self.beats_per_bar == 0 || self.beat_in_bar == u32::MAX {
            return false;
        }
        let ends_bar = (self.beat_in_bar + 1) % self.beats_per_bar == 0;
        if !ends_bar {
            return true;
        }
        if self.bars_completed == u32::MAX {
            return false;
        }
        if !self.ramp_enabled {
            return true;
        }
        if self.current_bpm as u64 + self.ramp_increment as u64 > u32::MAX as u64 {
            return false;
        }
        let next = self.next_bpm();
        let raises = self.bars_completed + 1 >= self.ramp_bars_interval
            && self.current_bpm < self.ramp_target_bpm
            && next != self.current_bpm;
        !raises || next as u64 + self.ramp_increment as u64 <= u32::MAX as u64
    }

    /// One beat of the timer.
    pub fn beat(&mut self) -> (outcome: BeatOutcome)
        requires
            beat_allowed(*old(self)),
        ensures
            ({
                let (after, accent, new_bpm, status) = beat_effect(*old(self));
                &&& *final(self) == after
                &&& outcome.accent == accent
                &&& outcome.new_bpm == new_bpm
                &&& match outcome.status {
                    Some(text) => status == Some(text@),
                    None => status is None,
                }
            }),
    {
        let accent = self.beat_in_bar == 0 && self.beats_per_bar > 1;
        self.beat_in_bar = (self.beat_in_bar + 1) % self.beats_per_bar;
        if self.beat_in_bar != 0 {
            return BeatOutcome { accent, new_bpm: None, status: None };
        }
        self.bars_completed = self.bars_completed + 1;
        if !self.ramp_enabled {
            return BeatOutcome { accent, new_bpm: None, status: None };
        }
        if self.bars_completed >= self.ramp_bars_interval && self.current_bpm < self.ramp_target_bpm {
            self.bars_completed = 0;
            let new_bpm = self.next_bpm();
            if new_bpm != self.current_bpm {
                self.current_bpm = new_bpm;
                let status = self.status(1);
                BeatOutcome { accent, new_bpm: Some(new_bpm), status: Some(status) }
            } else {
                BeatOutcome { accent, new_bpm: None, status: None }
            }
        } else {
            let done = self.bars_completed;
            let status = self.status(done);
            BeatOutcome { accent, new_bpm: None, status: Some(status) }
        }
    }
}

/// The length of one beat in nanoseconds.
pub fn beat_nanos(bpm: u32) -> (nanos: u64)
    requires
        bpm > 0,
    ensures
        nanos == 60_000_000_000u64 / (bpm as u64),
{
    60_000_000_000u64 / bpm as u64
}

/// The ramp never raises the tempo past its target or past 260.
pub proof fn lemma_ramp_stays_under_target(s: TimerState)
    requires
        beat_allowed(s),
        s.current_bpm <= BPM_MAX,
    ensures
        ({
            let (after, _, new_bpm, _) = beat_effect(s);
            &&& after.current_bpm <= BPM_MAX
            &&& new_bpm matches Some(b) ==> b <= s.ramp_target_bpm && b <= BPM_MAX && b > s.current_bpm
        }),
{
}

/// The beats of a bar come round: after the bar's last beat the next beat
/// is the first, and it is accented when the bar has several beats.
pub proof fn lemma_bar_comes_round(s: TimerState)
    requires
        beat_allowed(s),
        s.beat_in_bar + 1 == s.beats_per_bar,
    ensures
        beat_effect(s).0.beat_in_bar == 0,
        beat_effect(beat_effect(s).0).1 == (s.beats_per_bar > 1),
{
}

} // verus!
