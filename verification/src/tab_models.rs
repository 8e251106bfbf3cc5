//! Data model for guitar tablature as the parsers produce it. Durations are
//! kept as their musical code (note value, dot, tuplet ratio); converting
//! them to ticks is left to the player.
use vstd::prelude::*;

verus! {

/// Ticks per quarter note used when durations are turned into ticks.
pub const TICKS_PER_QUARTER: u32 = 960;

#[derive(Debug, Clone, Copy, PartialEq, Eq, Structural)]
pub struct TabNote {
    pub string: u8,
    pub fret: u8,
}

impl View for TabNote {
    type V = TabNote;

    open spec fn view(&self) -> TabNote {
        *self
    }
}

pub struct TrackInfo {
    pub name: String,
    pub tuning: Vec<u8>,
    pub capo: u8,
    pub string_count: u8,
    pub midi_channel: u8,
    pub midi_port: u8,
}

pub struct TrackView {
    pub name: Seq<char>,
    pub tuning: Seq<u8>,
    pub capo: u8,
    pub string_count: u8,
    pub midi_channel: u8,
    pub midi_port: u8,
}

impl View for TrackInfo {
    type V = TrackView;

    open spec fn view(&self) -> TrackView {
        TrackView {
            name: self.name@,
            tuning: self.tuning@,
            capo: self.capo,
            string_count: self.string_count,
            midi_channel: self.midi_channel,
            midi_port: self.midi_port,
        }
    }
}

impl TrackInfo {
    pub fn clone_track(&self) -> (copy: TrackInfo)
        ensures
            copy@ == self@,
    {
        let mut tuning: Vec<u8> = Vec::new();
        let mut i: usize = 0;
        while i < self.tuning.len()
            invariant
                i <= self.tuning@.len(),
                tuning@ == self.tuning@.take(i as int),
            decreases self.tuning@.len() - i,
        {
            tuning.push(self.tuning[i]);
            i += 1;
            assert(tuning@ =~= self.tuning@.take(i as int));
        }
        assert(self.tuning@.take(i as int) =~= self.tuning@);
        TrackInfo {
            name: self.name.clone(),
            tuning,
            capo: self.capo,
            string_count: self.string_count,
            midi_channel: self.midi_channel,
            midi_port: self.midi_port,
        }
    }
}

/// The written duration of a beat: note value (-2 = whole … 4 = 64th), an
/// augmentation dot, and a tuplet ratio (`tuplet_enters` notes in the time
/// of `tuplet_times`).
#[derive(Debug, Clone, Copy, PartialEq, Eq, Structural)]
pub struct NoteDuration {
    pub value: i8,
    pub dotted: bool,
    pub tuplet_enters: u8,
    pub tuplet_times: u8,
}

pub struct ScoreBeat {
    pub bar_index: usize,
    pub beat_index: usize,
    pub duration: NoteDuration,
    pub is_rest: bool,
    pub notes: Vec<TabNote>,
}

pub struct ScoreBeatView {
    pub bar_index: usize,
    pub beat_index: usize,
    pub duration: NoteDuration,
    pub is_rest: bool,
    pub notes: Seq<TabNote>,
}

impl View for ScoreBeat {
    type V = ScoreBeatView;

    open spec fn view(&self) -> ScoreBeatView {
        ScoreBeatView {
            bar_index: self.bar_index,
            beat_index: self.beat_index,
            duration: self.duration,
            is_rest: self.is_rest,
            notes: self.notes@,
        }
    }
}

#[derive(Debug, Clone, Copy, PartialEq, Eq, Structural)]
pub struct ScoreBar {
    pub index: usize,
    pub first_beat_index: usize,
    pub beat_count: usize,
    pub time_sig_num: u8,
    pub time_sig_denom: u8,
}

/// The song's tempo as the file gives it.
#[derive(Debug, Clone)]
pub enum SongTempo {
    /// Beats per minute, a whole number (Guitar Pro 5).
    Bpm(i32),
    /// The tempo as written in the file (Guitar Pro 7), read by the player
    /// as a number of beats per minute, 120 when it is not a number.
    Written(String),
    /// The file gives no tempo: 120 beats per minute.
    Unset,
}

/// A parsed score for one track: beats in playing order, bars grouping
/// them, every track's description, and the song's header fields.
pub struct ScoreLayout {
    pub beats: Vec<ScoreBeat>,
    pub bars: Vec<ScoreBar>,
    pub tracks: Vec<TrackInfo>,
    pub title: String,
    pub artist: String,
    pub tempo: SongTempo,
}

/// Bars partition the beats in order: each bar's beats follow the previous
/// bar's, every beat belongs to the bar that lists it, and beat indices
/// count up from zero.
pub open spec fn layout_consistent(beats: Seq<ScoreBeatView>, bars: Seq<ScoreBar>) -> bool {
    &&& forall|b: int| 0 <= b < bars.len() ==> (#[trigger] bars[b]).index == b
    &&& forall|b: int| 0 <= b < bars.len() ==> (#[trigger] bars[b]).first_beat_index + bars[b].beat_count <= beats.len()
    &&& forall|b: int| 0 <= b < bars.len() - 1 ==> (#[trigger] bars[b]).first_beat_index + bars[b].beat_count == bars[b + 1].first_beat_index
    &&& bars.len() > 0 ==> bars[0].first_beat_index == 0
    &&& bars.len() > 0 ==> bars.last().first_beat_index + bars.last().beat_count == beats.len()
    &&& bars.len() == 0 ==> beats.len() == 0
    &&& forall|i: int| 0 <= i < beats.len() ==> (#[trigger] beats[i]).beat_index == i
    &&& forall|i: int| 0 <= i < beats.len() ==> {
        let bar = #[trigger] beats[i].bar_index;
        &&& bar < bars.len()
        &&& bars[bar as int].first_beat_index <= i < bars[bar as int].first_beat_index + bars[bar as int].beat_count
    }
}

} // verus!
