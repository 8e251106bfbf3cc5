//! The metronome page: tempo (20 to 260 beats per minute), beats per bar
//! (1 to 99), play state and the beat within the bar. The volume and tap
//! tempo, which measure time and fractions, stay with the application.
use vstd::prelude::*;
use crate::settings::Settings;

verus! {

pub const BPM_MIN: u32 = 20;
pub const BPM_MAX: u32 = 260;
pub const BPB_MIN: u8 = 1;
pub const BPB_MAX: u8 = 99;

#[derive(Debug, Clone, Copy, PartialEq, Eq, Structural)]
pub enum MetronomeMessage {
    TogglePlay,
    SetBpm(u32),
    IncrementBpm,
    DecrementBpm,
    IncrementBpb,
    DecrementBpb,
    Tick,
}

#[derive(Debug, Clone, Copy, PartialEq, Eq, Structural)]
pub struct MetronomePage {
    pub bpm: u32,
    pub beats_per_bar: u8,
    pub is_playing: bool,
    pub current_beat: u32,
}

pub open spec fn clamp_bpm(bpm: int) -> u32 {
    if bpm < BPM_MIN { BPM_MIN } else if bpm > BPM_MAX { BPM_MAX } else { bpm as u32 }
}

/// A message's effect, and for a tick while playing, the click to sound
/// (`Some(true)` for the accented first beat of the bar).
pub open spec fn metronome_step(page: MetronomePage, message: MetronomeMessage) -> (MetronomePage, Option<bool>) {
    match message {
        MetronomeMessage::TogglePlay => (MetronomePage {
            is_playing: !page.is_playing,
            current_beat: if page.is_playing { 0 } else { page.current_beat },
            ..page
        }, None),
        MetronomeMessage::Tick => if page.is_playing {
            let beat = ((page.current_beat + 1) % (page.beats_per_bar as int)) as u32;
            (MetronomePage { current_beat: beat, ..page }, Some(beat == 0))
        } else {
            (page, None)
        },
        MetronomeMessage::SetBpm(bpm) => (MetronomePage { bpm: clamp_bpm(bpm as int), ..page }, None),
        MetronomeMessage::IncrementBpm => (MetronomePage {
            bpm: if page.bpm + 1 < BPM_MAX { (page.bpm + 1) as u32 } else { BPM_MAX },
            ..page
        }, None),
        MetronomeMessage::DecrementBpm => (MetronomePage {
            bpm: if page.bpm >= BPM_MIN + 1 { (page.bpm - 1) as u32 } else { BPM_MIN },
            ..page
        }, None),
        MetronomeMessage::IncrementBpb => (MetronomePage {
            beats_per_bar: if page.beats_per_bar < BPB_MAX { (page.beats_per_bar + 1) as u8 } else { page.beats_per_bar },
            ..page
        }, None),
        MetronomeMessage::DecrementBpb => if page.beats_per_bar > BPB_MIN {
            let bpb = (page.beats_per_bar - 1) as u8;
            (MetronomePage {
                beats_per_bar: bpb,
                current_beat: if page.current_beat >= bpb { 0 } else { page.current_beat },
                ..page
            }, None)
        } else {
            (page, None)
        },
    }
}

/// The messages a page can take: a tick while playing needs a bar of at
/// least one beat, and the tempo must leave room to count up.
pub open spec fn metronome_accepts(page: MetronomePage, message: MetronomeMessage) -> bool {
    &&& (message == MetronomeMessage::Tick && page.is_playing ==> page.beats_per_bar > 0 && page.current_beat < u32::MAX)
    &&& (message == MetronomeMessage::IncrementBpm ==> page.bpm < u32::MAX)
}

impl MetronomePage {
    /// Whether the page can take the message (see `metronome_accepts`).
    pub fn accepts(&self, message: MetronomeMessage) -> (ok: bool)
        ensures
            ok == metronome_accepts(*self, message),
    {
        match message {
            MetronomeMessage::Tick => !self.is_playing || (self.beats_per_bar > 0 && self.current_beat < u32::MAX),
            MetronomeMessage::IncrementBpm => self.bpm < u32::MAX,
            _ => true,
        }
    }

    pub fn new() -> (page: MetronomePage)
        ensures
            page == (MetronomePage { bpm: 100, beats_per_bar: 4, is_playing: false, current_beat: 0 }),
    {
        MetronomePage { bpm: 100, beats_per_bar: 4, is_playing: false, current_beat: 0 }
    }

    /// Applies a message; gives the click to sound, if any.
    pub fn update(&mut self, message: MetronomeMessage) -> (click: Option<bool>)
        requires
            metronome_accepts(*old(self), message),
        ensures
            (*final(self), click) == metronome_step(*old(self), message),
    {
        match message {
            MetronomeMessage::TogglePlay => {
                self.is_playing = !self.is_playing;
                if !self.is_playing {
                    self.current_beat = 0;
                }
                None
            },
            MetronomeMessage::Tick => {
                if self.is_playing {
                    self.current_beat = (self.current_beat + 1) % self.beats_per_bar as u32;
                    Some(self.current_beat == 0)
                } else {
                    None
                }
            },
            MetronomeMessage::SetBpm(bpm) => {
                self.bpm = if bpm < BPM_MIN { BPM_MIN } else if bpm > BPM_MAX { BPM_MAX } else { bpm };
                None
            },
            MetronomeMessage::IncrementBpm => {
                let next = self.bpm + 1;
                self.bpm = if next < BPM_MAX { next } else { BPM_MAX };
                None
            },
            MetronomeMessage::DecrementBpm => {
                let next = self.bpm.saturating_sub(1);
                self.bpm = if next > BPM_MIN { next } else { BPM_MIN };
                None
            },
            MetronomeMessage::IncrementBpb => {
                if self.beats_per_bar < BPB_MAX {
                    self.beats_per_bar += 1;
                }
                None
            },
            MetronomeMessage::DecrementBpb => {
                if self.beats_per_bar > BPB_MIN {
                    self.beats_per_bar -= 1;
                    if self.current_beat >= self.beats_per_bar as u32 {
                        self.current_beat = 0;
                    }
                }
                None
            },
        }
    }

    /// Takes tempo and meter from the settings.
    pub fn restore(&mut self, settings: &Settings)
        ensures
            *final(self) == (MetronomePage { bpm: settings.bpm, beats_per_bar: settings.beats_per_bar, ..*old(self) }),
    {
        self.bpm = settings.bpm;
        self.beats_per_bar = settings.beats_per_bar;
    }

    /// Writes tempo and meter into the settings.
    pub fn save(&self, settings: &mut Settings)
        ensures
            *final(settings) == (Settings { bpm: self.bpm, beats_per_bar: self.beats_per_bar, ..*old(settings) }),
    {
        settings.bpm = self.bpm;
        settings.beats_per_bar = self.beats_per_bar;
    }
}

/// Tempo and meter stay in range: from a page in range, every message
/// leaves the tempo in 20..=260 and the bar in 1..=99 beats, and the beat
/// inside the bar.
pub proof fn lemma_metronome_stays_in_range(page: MetronomePage, message: MetronomeMessage)
    requires
        BPM_MIN <= page.bpm <= BPM_MAX,
        BPB_MIN <= page.beats_per_bar <= BPB_MAX,
        page.current_beat < page.beats_per_bar,
    ensures
        ({
            let after = metronome_step(page, message).0;
            &&& BPM_MIN <= after.bpm <= BPM_MAX
            &&& BPB_MIN <= after.beats_per_bar <= BPB_MAX
            &&& after.current_beat < after.beats_per_bar
        }),
{
}

/// Ticking through a whole bar comes back to its first beat, accented.
pub proof fn lemma_tick_wraps_at_bar_end(page: MetronomePage)
    requires
        page.is_playing,
        page.beats_per_bar > 0,
        page.current_beat + 1 == page.beats_per_bar,
    ensures
        metronome_step(page, MetronomeMessage::Tick).0.current_beat == 0,
        metronome_step(page, MetronomeMessage::Tick).1 == Some(true),
{
}

/// The mark of one beat of the bar display: the sounding beat is `O` on
/// the downbeat and `o` elsewhere while playing; the others are dots.
pub open spec fn beat_mark(beat_index: int, current_beat: u32, is_playing: bool) -> Seq<char> {
    if is_playing && beat_index == current_beat {
        if beat_index == 0 { "O"@ } else { "o"@ }
    } else {
        "."@
    }
}

/// The marks of the bar display, one per beat of the bar.
pub fn beat_marks(current_beat: u32, beats_per_bar: u8, is_playing: bool) -> (marks: Vec<&'static str>)
    ensures
        marks@.len() == beats_per_bar,
        forall|i: int| 0 <= i < beats_per_bar ==> (#[trigger] marks@[i])@ == beat_mark(i, current_beat, is_playing),
{
    let mut marks: Vec<&'static str> = Vec::new();
    let mut beat_index: u32 = 0;
    while beat_index < beats_per_bar as u32
        invariant
            beat_index <= beats_per_bar,
            marks@.len() == beat_index,
            forall|i: int| 0 <= i < beat_index ==> (#[trigger] marks@[i])@ == beat_mark(i, current_beat, is_playing),
        decreases beats_per_bar - beat_index,
    {
        let mark = if is_playing && beat_index == current_beat {
            if beat_index == 0 { "O" } else { "o" }
        } else {
            "."
        };
        marks.push(mark);
        beat_index += 1;
    }
    marks
}

} // verus!
