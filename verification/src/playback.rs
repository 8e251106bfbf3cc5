//! The tab player's playback engine: what each command does to the play
//! state, and what each rendered buffer of 256 frames dispatches, fires and
//! resets. The audio thread drives it: it hands over each command, and for
//! each buffer sends the due events to the synthesizer, fires the due beat
//! callbacks and renders.
use vstd::prelude::*;
use crate::tab_midi::{MidiEvent, BeatMarker, MidiTimeline, TimelineView, GUITAR_CHANNEL, METRONOME_CHANNEL, METRONOME_ACCENT_NOTE, METRONOME_REGULAR_NOTE, METRONOME_ACCENT_VELOCITY, METRONOME_REGULAR_VELOCITY};

verus! {

/// Frames rendered per buffer.
pub const BUFFER_FRAMES: u64 = 256;

/// A command for the engine. Count-in parameters stay with the caller,
/// which plays the count-in when told to.
pub enum PlaybackCommand {
    Play,
    PlayWithCountIn,
    Pause,
    Stop,
    SeekToBeat(usize),
    SetTimeline(MidiTimeline),
    SetGuitarProgram(u32),
    SetGuitarVolume(u8),
    SetMetronomeVolume(u8),
    SetLoop(Option<(usize, usize)>),
}

/// What the audio thread does besides the state change.
#[derive(Debug, Clone, Copy, PartialEq, Eq, Structural)]
pub enum EngineAction {
    Nothing,
    /// Start the audio output.
    StartOutput,
    /// Start the audio output and play the count-in before playback.
    CountInThenPlay,
    /// Stop the audio output and end the thread.
    Shutdown,
    /// Silence both channels.
    Silence,
    /// Select a guitar program.
    SelectGuitarProgram(u32),
    /// Set a channel's volume controller.
    SetVolume { channel: u8, volume: u8 },
}

pub struct PlaybackEngine {
    timeline: Option<MidiTimeline>,
    is_playing: bool,
    sample_position: u64,
    event_index: usize,
    beat_marker_index: usize,
    loop_range: Option<(u64, u64)>,
    loop_beat_range: Option<(usize, usize)>,
}

pub struct EngineView {
    pub timeline: Option<TimelineView>,
    pub is_playing: bool,
    pub sample_position: u64,
    pub event_index: usize,
    pub beat_marker_index: usize,
    pub loop_range: Option<(u64, u64)>,
    pub loop_beat_range: Option<(usize, usize)>,
}

impl View for PlaybackEngine {
    type V = EngineView;

    closed spec fn view(&self) -> EngineView {
        EngineView {
            timeline: match self.timeline { Some(t) => Some(t@), None => None },
            is_playing: self.is_playing,
            sample_position: self.sample_position,
            event_index: self.event_index,
            beat_marker_index: self.beat_marker_index,
            loop_range: self.loop_range,
            loop_beat_range: self.loop_beat_range,
        }
    }
}

/// The first marker of beat `beat`.
pub open spec fn find_marker(markers: Seq<BeatMarker>, beat: int) -> Option<BeatMarker>
    decreases markers.len(),
{
    if markers.len() == 0 {
        None
    } else if markers[0].beat_index == beat {
        Some(markers[0])
    } else {
        find_marker(markers.drop_first(), beat)
    }
}

/// How many events at the front lie before sample `target`.
pub open spec fn events_before(events: Seq<MidiEvent>, target: u64) -> nat
    decreases events.len(),
{
    if events.len() == 0 || events[0].position() >= target { 0 } else { 1 + events_before(events.drop_first(), target) }
}

/// How many markers at the front lie before sample `target`.
pub open spec fn markers_before(markers: Seq<BeatMarker>, target: u64) -> nat
    decreases markers.len(),
{
    if markers.len() == 0 || markers[0].sample_position >= target { 0 } else { 1 + markers_before(markers.drop_first(), target) }
}

/// The sample range of a loop over beats `start..=end`: from the start of
/// `start` to the start of the beat after `end`; a beat without a marker
/// gives the song's start or end.
pub open spec fn loop_samples(timeline: Option<TimelineView>, beats: Option<(usize, usize)>) -> Option<(u64, u64)> {
    match (timeline, beats) {
        (Some(t), Some((start, end))) => Some((
            match find_marker(t.beat_markers, start as int) { Some(m) => m.sample_position, None => 0 },
            match find_marker(t.beat_markers, end + 1) { Some(m) => m.sample_position, None => t.total_samples },
        )),
        _ => None,
    }
}

/// The engine moved to sample `target`: the event and marker indices point
/// at the first ones not before it.
pub open spec fn rewound(s: EngineView, t: TimelineView, target: u64) -> EngineView {
    EngineView {
        sample_position: target,
        event_index: events_before(t.events, target) as usize,
        beat_marker_index: markers_before(t.beat_markers, target) as usize,
        ..s
    }
}

pub open spec fn initial_engine() -> EngineView {
    EngineView {
        timeline: None,
        is_playing: false,
        sample_position: 0,
        event_index: 0,
        beat_marker_index: 0,
        loop_range: None,
        loop_beat_range: None,
    }
}

/// What a command does: the new state and the action for the audio thread.
pub open spec fn command_step(s: EngineView, command: PlaybackCommand) -> (EngineView, EngineAction) {
    match command {
        PlaybackCommand::Play => if s.timeline is Some {
            (EngineView { is_playing: true, ..s }, EngineAction::StartOutput)
        } else {
            (s, EngineAction::Nothing)
        },
        PlaybackCommand::PlayWithCountIn => if s.timeline is Some {
            (EngineView { is_playing: true, ..s }, EngineAction::CountInThenPlay)
        } else {
            (s, EngineAction::Nothing)
        },
        PlaybackCommand::Pause => (EngineView { is_playing: false, ..s }, EngineAction::Nothing),
        PlaybackCommand::Stop => (EngineView { is_playing: false, ..s }, EngineAction::Shutdown),
        PlaybackCommand::SetTimeline(timeline) => (EngineView {
            timeline: Some(timeline@),
            sample_position: 0,
            event_index: 0,
            beat_marker_index: 0,
            loop_range: loop_samples(Some(timeline@), s.loop_beat_range),
            ..s
        }, EngineAction::Nothing),
        PlaybackCommand::SeekToBeat(beat) => match s.timeline {
            Some(t) => match find_marker(t.beat_markers, beat as int) {
                Some(marker) => (rewound(s, t, marker.sample_position), EngineAction::Silence),
                None => (s, EngineAction::Nothing),
            },
            None => (s, EngineAction::Nothing),
        },
        PlaybackCommand::SetGuitarProgram(program) => (s, EngineAction::SelectGuitarProgram(program)),
        PlaybackCommand::SetGuitarVolume(volume) => (s, EngineAction::SetVolume { channel: GUITAR_CHANNEL, volume }),
        PlaybackCommand::SetMetronomeVolume(volume) => (s, EngineAction::SetVolume { channel: METRONOME_CHANNEL, volume }),
        PlaybackCommand::SetLoop(beats) => (EngineView {
            loop_beat_range: beats,
            loop_range: loop_samples(s.timeline, beats),
            ..s
        }, EngineAction::Nothing),
    }
}

/// Where a buffer's play stops: the loop end, or the end of the song.
pub open spec fn boundary(s: EngineView, t: TimelineView) -> u64 {
    match s.loop_range { Some((_, end)) => end, None => t.total_samples }
}

/// The end of the buffer that starts at the engine's position, clamped to
/// the boundary.
pub open spec fn buffer_end(s: EngineView, t: TimelineView) -> int {
    let raw = s.sample_position + BUFFER_FRAMES;
    if raw < boundary(s, t) { raw } else { boundary(s, t) as int }
}

/// The first event from `from` on at or after sample `limit`.
pub open spec fn scan_events(events: Seq<MidiEvent>, from: int, limit: int) -> int
    decreases events.len() - from,
{
    if from < 0 || from >= events.len() || events[from].position() >= limit { from } else { scan_events(events, from + 1, limit) }
}

pub open spec fn scan_markers(markers: Seq<BeatMarker>, from: int, limit: int) -> int
    decreases markers.len() - from,
{
    if from < 0 || from >= markers.len() || markers[from].sample_position >= limit { from } else { scan_markers(markers, from + 1, limit) }
}

/// The events among `from..to` at or after sample `start`, in order.
pub open spec fn due_events(events: Seq<MidiEvent>, from: int, to: int, start: u64) -> Seq<MidiEvent>
    decreases to - from,
{
    if to <= from {
        Seq::empty()
    } else {
        let rest = due_events(events, from, to - 1, start);
        if events[to - 1].position() >= start { rest.push(events[to - 1]) } else { rest }
    }
}

pub open spec fn due_markers(markers: Seq<BeatMarker>, from: int, to: int, start: u64) -> Seq<BeatMarker>
    decreases to - from,
{
    if to <= from {
        Seq::empty()
    } else {
        let rest = due_markers(markers, from, to - 1, start);
        if markers[to - 1].sample_position >= start { rest.push(markers[to - 1]) } else { rest }
    }
}

/// The work of one buffer: events to send to the synthesizer, beats to
/// fire, and whether to silence both channels after rendering.
pub struct BufferWork {
    pub events: Vec<MidiEvent>,
    pub beats: Vec<BeatMarker>,
    pub silence: bool,
}

pub struct BufferWorkView {
    pub events: Seq<MidiEvent>,
    pub beats: Seq<BeatMarker>,
    pub silence: bool,
}

impl View for BufferWork {
    type V = BufferWorkView;

    open spec fn view(&self) -> BufferWorkView {
        BufferWorkView { events: self.events@, beats: self.beats@, silence: self.silence }
    }
}

/// One buffer of play: the events and beats due before the buffer's end,
/// then the position moves on a buffer; at the boundary a loop goes back to
/// its start, and the end of the song stops play and goes back to the top.
pub open spec fn advance_step(s: EngineView, t: TimelineView) -> (EngineView, BufferWorkView) {
    let end = buffer_end(s, t);
    let next_event = scan_events(t.events, s.event_index as int, end);
    let next_marker = scan_markers(t.beat_markers, s.beat_marker_index as int, end);
    let work = BufferWorkView {
        events: due_events(t.events, s.event_index as int, next_event, s.sample_position),
        beats: due_markers(t.beat_markers, s.beat_marker_index as int, next_marker, s.sample_position),
        silence: s.sample_position + BUFFER_FRAMES >= boundary(s, t),
    };
    let moved = s.sample_position + BUFFER_FRAMES;
    let after = if moved < boundary(s, t) {
        EngineView {
            sample_position: moved as u64,
            event_index: next_event as usize,
            beat_marker_index: next_marker as usize,
            ..s
        }
    } else {
        match s.loop_range {
            Some((start, _)) => rewound(s, t, start),
            None => EngineView { is_playing: false, sample_position: 0, event_index: 0, beat_marker_index: 0, ..s },
        }
    };
    (after, work)
}

impl PlaybackEngine {
    pub fn new() -> (engine: PlaybackEngine)
        ensures
            engine@ == initial_engine(),
    {
        PlaybackEngine {
            timeline: None,
            is_playing: false,
            sample_position: 0,
            event_index: 0,
            beat_marker_index: 0,
            loop_range: None,
            loop_beat_range: None,
        }
    }

    pub fn is_playing(&self) -> (playing: bool)
        ensures
            playing == self@.is_playing,
    {
        self.is_playing
    }

    pub fn sample_position(&self) -> (position: u64)
        ensures
            position == self@.sample_position,
    {
        self.sample_position
    }

    pub fn event_index(&self) -> (index: usize)
        ensures
            index == self@.event_index,
    {
        self.event_index
    }

    pub fn beat_marker_index(&self) -> (index: usize)
        ensures
            index == self@.beat_marker_index,
    {
        self.beat_marker_index
    }

    pub fn loop_range(&self) -> (range: Option<(u64, u64)>)
        ensures
            range == self@.loop_range,
    {
        self.loop_range
    }

    pub fn timeline(&self) -> (timeline: Option<&MidiTimeline>)
        ensures
            match timeline {
                Some(t) => self@.timeline == Some(t@),
                None => self@.timeline is None,
            },
    {
        match &self.timeline {
            Some(t) => Some(t),
            None => None,
        }
    }

    /// Applies a command; gives what the audio thread must do besides.
    pub fn handle_command(&mut self, command: PlaybackCommand) -> (action: EngineAction)
        ensures
            (final(self)@, action) == command_step(old(self)@, command),
    {
        match command {
            PlaybackCommand::Play => {
                if self.timeline.is_some() {
                    self.is_playing = true;
                    EngineAction::StartOutput
                } else {
                    EngineAction::Nothing
                }
            },
            PlaybackCommand::PlayWithCountIn => {
                if self.timeline.is_some() {
                    self.is_playing = true;
                    EngineAction::CountInThenPlay
                } else {
                    EngineAction::Nothing
                }
            },
            PlaybackCommand::Pause => {
                self.is_playing = false;
                EngineAction::Nothing
            },
            PlaybackCommand::Stop => {
                self.is_playing = false;
                EngineAction::Shutdown
            },
            PlaybackCommand::SetTimeline(timeline) => {
                self.sample_position = 0;
                self.event_index = 0;
                self.beat_marker_index = 0;
                let range = loop_range_of(&timeline, self.loop_beat_range);
                self.timeline = Some(timeline);
                self.loop_range = range;
                EngineAction::Nothing
            },
            PlaybackCommand::SeekToBeat(beat) => {
                let target = match &self.timeline {
                    Some(t) => marker_sample(&t.beat_markers, beat),
                    None => None,
                };
                match target {
                    Some(sample) => {
                        self.rewind(sample);
                        EngineAction::Silence
                    },
                    None => EngineAction::Nothing,
                }
            },
            PlaybackCommand::SetGuitarProgram(program) => EngineAction::SelectGuitarProgram(program),
            PlaybackCommand::SetGuitarVolume(volume) => EngineAction::SetVolume { channel: GUITAR_CHANNEL, volume },
            PlaybackCommand::SetMetronomeVolume(volume) => EngineAction::SetVolume { channel: METRONOME_CHANNEL, volume },
            PlaybackCommand::SetLoop(beats) => {
                self.loop_beat_range = beats;
                self.loop_range = match &self.timeline {
                    Some(t) => loop_range_of(t, beats),
                    None => None,
                };
                EngineAction::Nothing
            },
        }
    }

    fn rewind(&mut self, target: u64)
        requires
            old(self).timeline is Some,
        ensures
            final(self)@ == rewound(old(self)@, old(self)@.timeline.unwrap(), target),
    {
        match &self.timeline {
            Some(t) => {
                let events = count_events_before(&t.events, target);
                let markers = count_markers_before(&t.beat_markers, target);
                self.sample_position = target;
                self.event_index = events;
                self.beat_marker_index = markers;
            },
            None => {},
        }
    }

    /// Plays one buffer; `None` when not playing or without a timeline.
    pub fn advance(&mut self) -> (work: Option<BufferWork>)
        ensures
            match old(self)@.timeline {
                Some(t) if old(self)@.is_playing => work is Some
                    && (final(self)@, work->Some_0@) == advance_step(old(self)@, t),
                _ => work is None && final(self)@ == old(self)@,
            },
    {
        if !self.is_playing {
            return None;
        }
        let ghost s = self@;
        let (events, beats, next_event, next_marker, limit) = match &self.timeline {
            None => { return None; },
            Some(t) => {
                let limit = match self.loop_range {
                    Some((_, end)) => end,
                    None => t.total_samples,
                };
                let raw: u128 = self.sample_position as u128 + BUFFER_FRAMES as u128;
                let end: u64 = if raw < limit as u128 { raw as u64 } else { limit };
                let (events, next_event) = collect_due_events(&t.events, self.event_index, end, self.sample_position);
                let (beats, next_marker) = collect_due_markers(&t.beat_markers, self.beat_marker_index, end, self.sample_position);
                (events, beats, next_event, next_marker, limit)
            },
        };
        let silence = self.sample_position as u128 + BUFFER_FRAMES as u128 >= limit as u128;
        if !silence {
            self.sample_position = self.sample_position + BUFFER_FRAMES;
            self.event_index = next_event;
            self.beat_marker_index = next_marker;
        } else {
            match self.loop_range {
                Some((start, _)) => self.rewind(start),
                None => {
                    self.is_playing = false;
                    self.sample_position = 0;
                    self.event_index = 0;
                    self.beat_marker_index = 0;
                },
            }
        }
        Some(BufferWork { events, beats, silence })
    }
}

/// The sample of the first marker of beat `beat`.
fn marker_sample(markers: &Vec<BeatMarker>, beat: usize) -> (sample: Option<u64>)
    ensures
        sample == (match find_marker(markers@, beat as int) { Some(m) => Some(m.sample_position), None => None }),
{
    let mut i: usize = 0;
    assert(markers@.skip(0) =~= markers@);
    while i < markers.len()
        invariant
            i <= markers@.len(),
            find_marker(markers@, beat as int) == find_marker(markers@.skip(i as int), beat as int),
        decreases markers@.len() - i,
    {
        assert(markers@.skip(i as int).drop_first() =~= markers@.skip(i + 1));
        if markers[i].beat_index == beat {
            return Some(markers[i].sample_position);
        }
        i += 1;
    }
    None
}

/// The sample of the first marker of the beat after `beat`; `None` also when
/// there is no such beat number.
fn next_beat_marker_sample(markers: &Vec<BeatMarker>, beat: usize) -> (sample: Option<u64>)
    ensures
        sample == (match find_marker(markers@, beat + 1) { Some(m) => Some(m.sample_position), None => None }),
{
    if beat < usize::MAX {
        marker_sample(markers, beat + 1)
    } else {
        let mut i: usize = 0;
        assert(markers@.skip(0) =~= markers@);
        while i < markers.len()
            invariant
                i <= markers@.len(),
                beat == usize::MAX,
                find_marker(markers@, beat + 1) == find_marker(markers@.skip(i as int), beat + 1),
            decreases markers@.len() - i,
        {
            assert(markers@.skip(i as int).drop_first() =~= markers@.skip(i + 1));
            i += 1;
        }
        None
    }
}

fn loop_range_of(timeline: &MidiTimeline, beats: Option<(usize, usize)>) -> (range: Option<(u64, u64)>)
    ensures
        range == loop_samples(Some(timeline@), beats),
{
    match beats {
        Some((start, end)) => {
            let start_sample = match marker_sample(&timeline.beat_markers, start) {
                Some(sample) => sample,
                None => 0,
            };
            let end_sample = match next_beat_marker_sample(&timeline.beat_markers, end) {
                Some(sample) => sample,
                None => timeline.total_samples,
            };
            Some((start_sample, end_sample))
        },
        None => None,
    }
}

fn count_events_before(events: &Vec<MidiEvent>, target: u64) -> (count: usize)
    ensures
        count == events_before(events@, target),
{
    let mut i: usize = 0;
    assert(events@.skip(0) =~= events@);
    while i < events.len() && events[i].sample_position() < target
        invariant
            i <= events@.len(),
            events_before(events@, target) == i + events_before(events@.skip(i as int), target),
        decreases events@.len() - i,
    {
        assert(events@.skip(i as int).drop_first() =~= events@.skip(i + 1));
        i += 1;
    }
    i
}

fn count_markers_before(markers: &Vec<BeatMarker>, target: u64) -> (count: usize)
    ensures
        count == markers_before(markers@, target),
{
    let mut i: usize = 0;
    assert(markers@.skip(0) =~= markers@);
    while i < markers.len() && markers[i].sample_position < target
        invariant
            i <= markers@.len(),
            markers_before(markers@, target) == i + markers_before(markers@.skip(i as int), target),
        decreases markers@.len() - i,
    {
        assert(markers@.skip(i as int).drop_first() =~= markers@.skip(i + 1));
        i += 1;
    }
    i
}

fn collect_due_events(events: &Vec<MidiEvent>, from: usize, end: u64, start: u64) -> (r: (Vec<MidiEvent>, usize))
    ensures
        r.1 == scan_events(events@, from as int, end as int),
        r.0@ == due_events(events@, from as int, r.1 as int, start),
{
    let mut due: Vec<MidiEvent> = Vec::new();
    let mut i: usize = from;
    while i < events.len() && events[i].sample_position() < end
        invariant
            from <= i,
            scan_events(events@, from as int, end as int) == scan_events(events@, i as int, end as int),
            due@ == due_events(events@, from as int, i as int, start),
        decreases events@.len() - i,
    {
        if events[i].sample_position() >= start {
            due.push(events[i]);
        }
        i += 1;
    }
    (due, i)
}

fn collect_due_markers(markers: &Vec<BeatMarker>, from: usize, end: u64, start: u64) -> (r: (Vec<BeatMarker>, usize))
    ensures
        r.1 == scan_markers(markers@, from as int, end as int),
        r.0@ == due_markers(markers@, from as int, r.1 as int, start),
{
    let mut due: Vec<BeatMarker> = Vec::new();
    let mut i: usize = from;
    while i < markers.len() && markers[i].sample_position < end
        invariant
            from <= i,
            scan_markers(markers@, from as int, end as int) == scan_markers(markers@, i as int, end as int),
            due@ == due_markers(markers@, from as int, i as int, start),
        decreases markers@.len() - i,
    {
        if markers[i].sample_position >= start {
            due.push(markers[i]);
        }
        i += 1;
    }
    (due, i)
}

/// The sample of the first marker after sample `sample`.
pub open spec fn first_marker_after(markers: Seq<BeatMarker>, sample: u64) -> Option<u64>
    decreases markers.len(),
{
    if markers.len() == 0 {
        None
    } else if markers[0].sample_position > sample {
        Some(markers[0].sample_position)
    } else {
        first_marker_after(markers.drop_first(), sample)
    }
}

/// The (channel, key) of each guitar note-on in `[low, high)`, in order.
pub open spec fn guitar_notes_between(events: Seq<MidiEvent>, low: u64, high: u64) -> Seq<(u8, u8)>
    decreases events.len(),
{
    if events.len() == 0 {
        Seq::empty()
    } else {
        let rest = guitar_notes_between(events.drop_last(), low, high);
        match events.last() {
            MidiEvent::NoteOn { sample_position, channel, key, .. } =>
                if channel == GUITAR_CHANNEL && low <= sample_position && sample_position < high {
                    rest.push((channel, key))
                } else {
                    rest
                },
            _ => rest,
        }
    }
}

/// The notes of a beat: the guitar note-ons from its marker up to the next
/// later marker (or the end of the song).
pub open spec fn beat_notes(t: TimelineView, marker: BeatMarker) -> Seq<(u8, u8)> {
    let next = match first_marker_after(t.beat_markers, marker.sample_position) {
        Some(sample) => sample,
        None => t.total_samples,
    };
    guitar_notes_between(t.events, marker.sample_position, next)
}

fn next_marker_after(markers: &Vec<BeatMarker>, sample: u64) -> (next: Option<u64>)
    ensures
        next == first_marker_after(markers@, sample),
{
    let mut i: usize = 0;
    assert(markers@.skip(0) =~= markers@);
    while i < markers.len()
        invariant
            i <= markers@.len(),
            first_marker_after(markers@, sample) == first_marker_after(markers@.skip(i as int), sample),
        decreases markers@.len() - i,
    {
        assert(markers@.skip(i as int).drop_first() =~= markers@.skip(i + 1));
        if markers[i].sample_position > sample {
            return Some(markers[i].sample_position);
        }
        i += 1;
    }
    None
}

/// The (channel, key) pairs that sound at a beat, for its callback.
pub fn collect_beat_notes(timeline: &MidiTimeline, marker: &BeatMarker) -> (notes: Vec<(u8, u8)>)
    ensures
        notes@ == beat_notes(timeline@, *marker),
{
    let next = match next_marker_after(&timeline.beat_markers, marker.sample_position) {
        Some(sample) => sample,
        None => timeline.total_samples,
    };
    let events = &timeline.events;
    let mut notes: Vec<(u8, u8)> = Vec::new();
    let mut k: usize = 0;
    while k < events.len()
        invariant
            k <= events@.len(),
            notes@ == guitar_notes_between(events@.take(k as int), marker.sample_position, next),
        decreases events@.len() - k,
    {
        assert(events@.take(k + 1).drop_last() =~= events@.take(k as int));
        match events[k] {
            MidiEvent::NoteOn { sample_position, channel, key, .. } => {
                if channel == GUITAR_CHANNEL && marker.sample_position <= sample_position && sample_position < next {
                    notes.push((channel, key));
                }
            },
            _ => {},
        }
        k += 1;
    }
    assert(events@.take(k as int) =~= events@);
    notes
}

// ---------------------------------------------------------------------
// Laws

/// Play twice is Play once.
pub proof fn lemma_play_is_idempotent(s: EngineView)
    ensures
        command_step(command_step(s, PlaybackCommand::Play).0, PlaybackCommand::Play).0 == command_step(s, PlaybackCommand::Play).0,
{
}

/// Without a timeline, Play does nothing.
pub proof fn lemma_play_needs_timeline(s: EngineView)
    requires
        s.timeline is None,
    ensures
        command_step(s, PlaybackCommand::Play).0 == s,
        command_step(s, PlaybackCommand::Play).1 == EngineAction::Nothing,
{
}

/// Pausing keeps the position; playing again resumes from it.
pub proof fn lemma_pause_then_play_resumes(s: EngineView)
    requires
        s.timeline is Some,
    ensures
        command_step(s, PlaybackCommand::Pause).0.sample_position == s.sample_position,
        !command_step(s, PlaybackCommand::Pause).0.is_playing,
        command_step(command_step(s, PlaybackCommand::Pause).0, PlaybackCommand::Play).0 == (EngineView { is_playing: true, ..s }),
{
}

/// Seeking to a beat without a marker (or without a timeline) changes nothing.
pub proof fn lemma_seek_to_missing_beat_is_noop(s: EngineView, beat: usize)
    requires
        s.timeline is None || find_marker(s.timeline.unwrap().beat_markers, beat as int) is None,
    ensures
        command_step(s, PlaybackCommand::SeekToBeat(beat)).0 == s,
{
}

/// Seeking to a beat moves to its marker and to the first events and
/// markers not before it; play state and loop stay.
pub proof fn lemma_seek_moves_to_marker(s: EngineView, beat: usize)
    requires
        s.timeline is Some,
        find_marker(s.timeline.unwrap().beat_markers, beat as int) is Some,
    ensures
        ({
            let t = s.timeline.unwrap();
            let marker = find_marker(t.beat_markers, beat as int).unwrap();
            let after = command_step(s, PlaybackCommand::SeekToBeat(beat)).0;
            &&& after.sample_position == marker.sample_position
            &&& after.event_index == events_before(t.events, marker.sample_position) as usize
            &&& after.beat_marker_index == markers_before(t.beat_markers, marker.sample_position) as usize
            &&& after.is_playing == s.is_playing
            &&& after.loop_range == s.loop_range
        }),
{
}

/// A new timeline starts from the top, and the loop is recomputed on it.
pub proof fn lemma_new_timeline_starts_at_top(s: EngineView, timeline: MidiTimeline)
    ensures
        ({
            let after = command_step(s, PlaybackCommand::SetTimeline(timeline)).0;
            &&& after.timeline == Some(timeline@)
            &&& after.sample_position == 0
            &&& after.event_index == 0
            &&& after.beat_marker_index == 0
            &&& after.loop_range == loop_samples(Some(timeline@), s.loop_beat_range)
        }),
{
}

/// A loop set without a timeline has no sample range.
pub proof fn lemma_loop_needs_timeline(s: EngineView, beats: Option<(usize, usize)>)
    requires
        s.timeline is None,
    ensures
        command_step(s, PlaybackCommand::SetLoop(beats)).0.loop_range is None,
        command_step(s, PlaybackCommand::SetLoop(beats)).0.loop_beat_range == beats,
{
}

proof fn lemma_scan_events_below(events: Seq<MidiEvent>, from: int, limit: int)
    requires
        0 <= from,
    ensures
        from <= scan_events(events, from, limit),
        scan_events(events, from, limit) <= from || scan_events(events, from, limit) <= events.len(),
        forall|i: int| from <= i < scan_events(events, from, limit) ==> events[i].position() < limit,
    decreases events.len() - from,
{
    if !(from >= events.len() || events[from].position() >= limit) {
        lemma_scan_events_below(events, from + 1, limit);
    }
}

proof fn lemma_scan_markers_below(markers: Seq<BeatMarker>, from: int, limit: int)
    requires
        0 <= from,
    ensures
        from <= scan_markers(markers, from, limit),
        forall|i: int| from <= i < scan_markers(markers, from, limit) ==> markers[i].sample_position < limit,
    decreases markers.len() - from,
{
    if !(from >= markers.len() || markers[from].sample_position >= limit) {
        lemma_scan_markers_below(markers, from + 1, limit);
    }
}

proof fn lemma_due_events_in(events: Seq<MidiEvent>, from: int, to: int, start: u64, limit: int)
    requires
        forall|i: int| from <= i < to ==> events[i].position() < limit,
    ensures
        forall|j: int| 0 <= j < due_events(events, from, to, start).len() ==>
            start <= (#[trigger] due_events(events, from, to, start)[j]).position() < limit,
    decreases to - from,
{
    if to > from {
        lemma_due_events_in(events, from, to - 1, start, limit);
        let rest = due_events(events, from, to - 1, start);
        let due = due_events(events, from, to, start);
        assert forall|j: int| 0 <= j < due.len() implies start <= (#[trigger] due[j]).position() < limit by {
            if j < rest.len() {
                assert(due[j] == rest[j]);
            } else {
                assert(due[j] == events[to - 1]);
            }
        }
    }
}

proof fn lemma_due_markers_in(markers: Seq<BeatMarker>, from: int, to: int, start: u64, limit: int)
    requires
        forall|i: int| from <= i < to ==> markers[i].sample_position < limit,
    ensures
        forall|j: int| 0 <= j < due_markers(markers, from, to, start).len() ==>
            start <= (#[trigger] due_markers(markers, from, to, start)[j]).sample_position < limit,
    decreases to - from,
{
    if to > from {
        lemma_due_markers_in(markers, from, to - 1, start, limit);
        let rest = due_markers(markers, from, to - 1, start);
        let due = due_markers(markers, from, to, start);
        assert forall|j: int| 0 <= j < due.len() implies start <= (#[trigger] due[j]).sample_position < limit by {
            if j < rest.len() {
                assert(due[j] == rest[j]);
            } else {
                assert(due[j] == markers[to - 1]);
            }
        }
    }
}

/// A buffer sends and fires only what lies in it: from the position up to
/// a buffer later, and never at or past the loop end (or the song's end).
pub proof fn lemma_buffer_work_in_window(s: EngineView, t: TimelineView)
    ensures
        ({
            let work = advance_step(s, t).1;
            let end = buffer_end(s, t);
            &&& end <= boundary(s, t)
            &&& end <= s.sample_position + BUFFER_FRAMES
            &&& forall|j: int| 0 <= j < work.beats.len() ==> s.sample_position <= (#[trigger] work.beats[j]).sample_position < end
            &&& forall|j: int| 0 <= j < work.events.len() ==> s.sample_position <= (#[trigger] work.events[j]).position() < end
        }),
{
    let end = buffer_end(s, t);
    lemma_scan_events_below(t.events, s.event_index as int, end);
    lemma_scan_markers_below(t.beat_markers, s.beat_marker_index as int, end);
    lemma_due_events_in(t.events, s.event_index as int, scan_events(t.events, s.event_index as int, end), s.sample_position, end);
    lemma_due_markers_in(t.beat_markers, s.beat_marker_index as int, scan_markers(t.beat_markers, s.beat_marker_index as int, end), s.sample_position, end);
}

/// Reaching the end of the song without a loop stops play and goes back to
/// the top; both channels are silenced.
pub proof fn lemma_end_of_song_stops(s: EngineView, t: TimelineView)
    requires
        s.loop_range is None,
        s.sample_position + BUFFER_FRAMES >= t.total_samples,
    ensures
        !advance_step(s, t).0.is_playing,
        advance_step(s, t).0.sample_position == 0,
        advance_step(s, t).0.event_index == 0,
        advance_step(s, t).0.beat_marker_index == 0,
        advance_step(s, t).1.silence,
{
}

/// Reaching the loop end goes back to the loop start and keeps playing.
pub proof fn lemma_loop_wraps_to_start(s: EngineView, t: TimelineView, start: u64, end: u64)
    requires
        s.loop_range == Some((start, end)),
        s.sample_position + BUFFER_FRAMES >= end,
    ensures
        advance_step(s, t).0.sample_position == start,
        advance_step(s, t).0.is_playing == s.is_playing,
        advance_step(s, t).0.event_index == events_before(t.events, start) as usize,
        advance_step(s, t).0.beat_marker_index == markers_before(t.beat_markers, start) as usize,
        advance_step(s, t).1.silence,
{
}

/// Before the boundary, a buffer moves the position on by one buffer and
/// the next buffer starts with the first event and marker not yet reached.
pub proof fn lemma_buffer_moves_on(s: EngineView, t: TimelineView)
    requires
        s.sample_position + BUFFER_FRAMES < boundary(s, t),
    ensures
        advance_step(s, t).0.sample_position == s.sample_position + BUFFER_FRAMES,
        advance_step(s, t).0.is_playing == s.is_playing,
        !advance_step(s, t).1.silence,
        advance_step(s, t).0.beat_marker_index == scan_markers(t.beat_markers, s.beat_marker_index as int, s.sample_position + BUFFER_FRAMES) as usize,
{
}

/// The count-in's clicks: every beat of `bars` bars of `beats_per_bar`.
pub fn count_in_beats(bars: u32, beats_per_bar: u8) -> (beats: u32)
    requires
        bars * beats_per_bar <= u32::MAX,
    ensures
        beats == bars * beats_per_bar,
{
    bars * beats_per_bar as u32
}

/// The click of beat `beat` of the count-in, as (note, velocity): the first
/// beat of each bar is the accented one.
pub fn count_in_click(beat: u32, beats_per_bar: u8) -> (click: (u8, u8))
    requires
        beats_per_bar > 0,
    ensures
        click == if (beat as int) % (beats_per_bar as int) == 0 {
            (METRONOME_ACCENT_NOTE, METRONOME_ACCENT_VELOCITY)
        } else {
            (METRONOME_REGULAR_NOTE, METRONOME_REGULAR_VELOCITY)
        },
{
    if beat % beats_per_bar as u32 == 0 {
        (METRONOME_ACCENT_NOTE, METRONOME_ACCENT_VELOCITY)
    } else {
        (METRONOME_REGULAR_NOTE, METRONOME_REGULAR_VELOCITY)
    }
}

// ---------------------------------------------------------------------
// Runs: the engine over a sequence of commands and buffers

/// What the audio thread hands the engine: a command, or a buffer to play.
pub enum EngineInput {
    Command(PlaybackCommand),
    Buffer,
}

/// One input: the new state, and the beats it fires.
pub open spec fn input_step(s: EngineView, input: EngineInput) -> (EngineView, Seq<BeatMarker>) {
    match input {
        EngineInput::Command(command) => (command_step(s, command).0, Seq::empty()),
        EngineInput::Buffer => match s.timeline {
            Some(t) => if s.is_playing { (advance_step(s, t).0, advance_step(s, t).1.beats) } else { (s, Seq::empty()) },
            None => (s, Seq::empty()),
        },
    }
}

/// A run of inputs: the state at its end, and every beat fired, in order.
pub open spec fn run(s: EngineView, inputs: Seq<EngineInput>) -> (EngineView, Seq<BeatMarker>)
    decreases inputs.len(),
{
    if inputs.len() == 0 {
        (s, Seq::empty())
    } else {
        let (mid, fired) = run(s, inputs.drop_last());
        let (after, more) = input_step(mid, inputs.last());
        (after, fired + more)
    }
}

/// An input that leaves the loop as it is: anything but setting a loop or a timeline.
pub open spec fn keeps_loop(input: EngineInput) -> bool {
    match input {
        EngineInput::Command(PlaybackCommand::SetLoop(_)) => false,
        EngineInput::Command(PlaybackCommand::SetTimeline(_)) => false,
        _ => true,
    }
}

/// A buffer, a pause or a play.
pub open spec fn is_play_pause_or_buffer(input: EngineInput) -> bool {
    match input {
        EngineInput::Buffer => true,
        EngineInput::Command(PlaybackCommand::Pause) => true,
        EngineInput::Command(PlaybackCommand::Play) => true,
        _ => false,
    }
}

/// Markers in the order of their samples.
pub open spec fn markers_sorted(markers: Seq<BeatMarker>) -> bool {
    forall|i: int, j: int| 0 <= i <= j < markers.len() ==> markers[i].sample_position <= markers[j].sample_position
}

/// The engine plays `t`, and its indices point at the first event and the
/// first marker not before its position.
pub open spec fn synced(s: EngineView, t: TimelineView) -> bool {
    &&& s.timeline == Some(t)
    &&& s.event_index as int == events_before(t.events, s.sample_position)
    &&& s.beat_marker_index as int == markers_before(t.beat_markers, s.sample_position)
}

/// No buffer of the run starts within a buffer of the boundary while playing.
pub open spec fn stays_before_boundary(s: EngineView, t: TimelineView, inputs: Seq<EngineInput>) -> bool {
    forall|k: int| 0 <= k < inputs.len() && inputs[k] is Buffer && (#[trigger] run(s, inputs.take(k))).0.is_playing ==>
        run(s, inputs.take(k)).0.sample_position + BUFFER_FRAMES < boundary(run(s, inputs.take(k)).0, t)
}

proof fn lemma_markers_before_facts(markers: Seq<BeatMarker>, x: u64)
    ensures
        markers_before(markers, x) <= markers.len(),
        forall|k: int| 0 <= k < markers_before(markers, x) ==> (#[trigger] markers[k]).sample_position < x,
        markers_before(markers, x) < markers.len() ==> markers[markers_before(markers, x) as int].sample_position >= x,
    decreases markers.len(),
{
    if markers.len() > 0 && markers[0].sample_position < x {
        let rest = markers.drop_first();
        lemma_markers_before_facts(rest, x);
        assert forall|k: int| 0 <= k < markers_before(markers, x) implies (#[trigger] markers[k]).sample_position < x by {
            if k > 0 {
                assert(markers[k] == rest[k - 1]);
            }
        }
        if markers_before(markers, x) < markers.len() {
            assert(markers[markers_before(markers, x) as int] == rest[markers_before(rest, x) as int]);
        }
    }
}

proof fn lemma_events_before_facts(events: Seq<MidiEvent>, x: u64)
    ensures
        events_before(events, x) <= events.len(),
        forall|k: int| 0 <= k < events_before(events, x) ==> (#[trigger] events[k]).position() < x,
        events_before(events, x) < events.len() ==> events[events_before(events, x) as int].position() >= x,
    decreases events.len(),
{
    if events.len() > 0 && events[0].position() < x {
        let rest = events.drop_first();
        lemma_events_before_facts(rest, x);
        assert forall|k: int| 0 <= k < events_before(events, x) implies (#[trigger] events[k]).position() < x by {
            if k > 0 {
                assert(events[k] == rest[k - 1]);
            }
        }
        if events_before(events, x) < events.len() {
            assert(events[events_before(events, x) as int] == rest[events_before(rest, x) as int]);
        }
    }
}

/// Scanning from before the first marker at or past `limit` stops at it.
proof fn lemma_scan_markers_reaches(markers: Seq<BeatMarker>, i: int, limit: u64)
    requires
        0 <= i <= markers_before(markers, limit),
    ensures
        scan_markers(markers, i, limit as int) == markers_before(markers, limit),
    decreases markers.len() - i,
{
    lemma_markers_before_facts(markers, limit);
    if i < markers_before(markers, limit) {
        assert(markers[i].sample_position < limit);
        lemma_scan_markers_reaches(markers, i + 1, limit);
    }
}

proof fn lemma_scan_events_reaches(events: Seq<MidiEvent>, i: int, limit: u64)
    requires
        0 <= i <= events_before(events, limit),
    ensures
        scan_events(events, i, limit as int) == events_before(events, limit),
    decreases events.len() - i,
{
    lemma_events_before_facts(events, limit);
    if i < events_before(events, limit) {
        assert(events[i].position() < limit);
        lemma_scan_events_reaches(events, i + 1, limit);
    }
}

proof fn lemma_due_markers_all(markers: Seq<BeatMarker>, from: int, to: int, start: u64)
    requires
        0 <= from <= to <= markers.len(),
        forall|k: int| from <= k < to ==> (#[trigger] markers[k]).sample_position >= start,
    ensures
        due_markers(markers, from, to, start) == markers.subrange(from, to),
    decreases to - from,
{
    if to > from {
        lemma_due_markers_all(markers, from, to - 1, start);
        assert(markers[to - 1].sample_position >= start);
        assert(markers.subrange(from, to - 1).push(markers[to - 1]) =~= markers.subrange(from, to));
    } else {
        assert(markers.subrange(from, to) =~= Seq::<BeatMarker>::empty());
    }
}

proof fn lemma_markers_before_grows(markers: Seq<BeatMarker>, x: u64, y: u64)
    requires
        x <= y,
    ensures
        markers_before(markers, x) <= markers_before(markers, y),
    decreases markers.len(),
{
    if markers.len() > 0 && markers[0].sample_position < x {
        lemma_markers_before_grows(markers.drop_first(), x, y);
    }
}

/// One buffer played from a synced state, not past the boundary: it fires
/// exactly the markers from its position up to its end, and leaves the
/// engine synced.
proof fn lemma_buffer_fires_span(s: EngineView, t: TimelineView)
    requires
        synced(s, t),
        markers_sorted(t.beat_markers),
        s.sample_position <= boundary(s, t),
        t.events.len() <= usize::MAX,
        t.beat_markers.len() <= usize::MAX,
    ensures
        advance_step(s, t).1.beats == t.beat_markers.subrange(
            markers_before(t.beat_markers, s.sample_position) as int,
            markers_before(t.beat_markers, buffer_end(s, t) as u64) as int),
        synced(advance_step(s, t).0, t),
        advance_step(s, t).0.loop_range == s.loop_range,
        advance_step(s, t).0.loop_beat_range == s.loop_beat_range,
{
    let m = t.beat_markers;
    let pos = s.sample_position;
    let end = buffer_end(s, t);
    let e = end as u64;
    let i = markers_before(m, pos);
    lemma_markers_before_facts(m, pos);
    lemma_markers_before_facts(m, e);
    lemma_events_before_facts(t.events, pos);
    lemma_events_before_facts(t.events, e);
    lemma_markers_before_grows(m, pos, e);
    lemma_scan_markers_reaches(m, i as int, e);
    lemma_events_before_grows(t.events, pos, e);
    lemma_scan_events_reaches(t.events, events_before(t.events, pos) as int, e);
    assert forall|k: int| i <= k < markers_before(m, e) implies (#[trigger] m[k]).sample_position >= pos by {
        assert(m[i as int].sample_position >= pos);
        assert(m[i as int].sample_position <= m[k].sample_position);
    }
    lemma_due_markers_all(m, i as int, markers_before(m, e) as int, pos);
    let after = advance_step(s, t).0;
    if pos + BUFFER_FRAMES < boundary(s, t) {
        assert(end == pos + BUFFER_FRAMES);
    } else {
        match s.loop_range {
            Some((start, _)) => {
                lemma_events_before_facts(t.events, start);
                lemma_markers_before_facts(m, start);
            },
            None => {
                assert(events_before(t.events, 0) == 0);
                assert(markers_before(m, 0) == 0);
            },
        }
    }
}

proof fn lemma_events_before_grows(events: Seq<MidiEvent>, x: u64, y: u64)
    requires
        x <= y,
    ensures
        events_before(events, x) <= events_before(events, y),
    decreases events.len(),
{
    if events.len() > 0 && events[0].position() < x {
        lemma_events_before_grows(events.drop_first(), x, y);
    }
}

/// While a loop is set, the engine never fires a beat at or past the loop's
/// end, whatever it is told between buffers (play, pause, seeks, even to a
/// beat past the loop) as long as neither the loop nor the timeline is set
/// anew.
pub proof fn lemma_loop_never_fires_past_its_end(s: EngineView, inputs: Seq<EngineInput>, start: u64, end: u64)
    requires
        s.loop_range == Some((start, end)),
        forall|k: int| 0 <= k < inputs.len() ==> keeps_loop(#[trigger] inputs[k]),
    ensures
        run(s, inputs).0.loop_range == s.loop_range,
        forall|j: int| 0 <= j < run(s, inputs).1.len() ==> (#[trigger] run(s, inputs).1[j]).sample_position < end,
    decreases inputs.len(),
{
    if inputs.len() > 0 {
        let prefix = inputs.drop_last();
        assert forall|k: int| 0 <= k < prefix.len() implies keeps_loop(#[trigger] prefix[k]) by {
            assert(prefix[k] == inputs[k]);
        }
        lemma_loop_never_fires_past_its_end(s, prefix, start, end);
        let (mid, fired) = run(s, prefix);
        let (after, more) = input_step(mid, inputs.last());
        assert(keeps_loop(inputs[inputs.len() - 1]));
        match mid.timeline {
            Some(t) => {
                lemma_buffer_work_in_window(mid, t);
            },
            None => {},
        }
        assert forall|j: int| 0 <= j < more.len() implies (#[trigger] more[j]).sample_position < end by {
            if inputs.last() is Buffer {
                let t = mid.timeline.unwrap();
                assert(more == advance_step(mid, t).1.beats);
            }
        }
        let all = fired + more;
        assert forall|j: int| 0 <= j < all.len() implies (#[trigger] all[j]).sample_position < end by {
            if j < fired.len() {
                assert(all[j] == fired[j]);
            } else {
                assert(all[j] == more[j - fired.len()]);
            }
        }
    }
}

/// A run of buffers, pauses and plays that stays before the boundary fires
/// exactly the markers between where it starts and where it ends, in order,
/// each once: pausing and playing again neither repeats nor skips a beat.
pub proof fn lemma_run_fires_markers_in_order(s: EngineView, t: TimelineView, inputs: Seq<EngineInput>)
    requires
        synced(s, t),
        markers_sorted(t.beat_markers),
        t.events.len() <= usize::MAX,
        t.beat_markers.len() <= usize::MAX,
        s.sample_position <= boundary(s, t),
        forall|k: int| 0 <= k < inputs.len() ==> is_play_pause_or_buffer(#[trigger] inputs[k]),
        stays_before_boundary(s, t, inputs),
    ensures
        synced(run(s, inputs).0, t),
        run(s, inputs).0.loop_range == s.loop_range,
        run(s, inputs).0.loop_beat_range == s.loop_beat_range,
        s.sample_position <= run(s, inputs).0.sample_position <= boundary(s, t),
        run(s, inputs).1 == t.beat_markers.subrange(
            markers_before(t.beat_markers, s.sample_position) as int,
            markers_before(t.beat_markers, run(s, inputs).0.sample_position) as int),
    decreases inputs.len(),
{
    let m = t.beat_markers;
    lemma_markers_before_facts(m, s.sample_position);
    if inputs.len() == 0 {
        assert(m.subrange(markers_before(m, s.sample_position) as int, markers_before(m, s.sample_position) as int)
            =~= Seq::<BeatMarker>::empty());
    } else {
        let prefix = inputs.drop_last();
        assert forall|k: int| 0 <= k < prefix.len() implies is_play_pause_or_buffer(#[trigger] prefix[k]) by {
            assert(prefix[k] == inputs[k]);
        }
        assert forall|k: int| 0 <= k < prefix.len() && prefix[k] is Buffer && (#[trigger] run(s, prefix.take(k))).0.is_playing
            implies run(s, prefix.take(k)).0.sample_position + BUFFER_FRAMES < boundary(run(s, prefix.take(k)).0, t) by {
            assert(prefix.take(k) =~= inputs.take(k));
            assert(prefix[k] == inputs[k]);
        }
        lemma_run_fires_markers_in_order(s, t, prefix);
        let (mid, fired) = run(s, prefix);
        let (after, more) = input_step(mid, inputs.last());
        let last = inputs.last();
        assert(is_play_pause_or_buffer(inputs[inputs.len() - 1]));
        let a = markers_before(m, s.sample_position) as int;
        let b = markers_before(m, mid.sample_position) as int;
        lemma_markers_before_facts(m, mid.sample_position);
        lemma_markers_before_grows(m, s.sample_position, mid.sample_position);
        if last is Buffer && mid.is_playing {
            assert(inputs.take(inputs.len() - 1) =~= prefix);
            assert(mid.sample_position + BUFFER_FRAMES < boundary(mid, t));
            lemma_buffer_fires_span(mid, t);
            let e = (mid.sample_position + BUFFER_FRAMES) as u64;
            assert(buffer_end(mid, t) == e);
            lemma_markers_before_facts(m, e);
            lemma_markers_before_grows(m, mid.sample_position, e);
            let c = markers_before(m, e) as int;
            assert(m.subrange(a, b) + m.subrange(b, c) =~= m.subrange(a, c));
        } else {
            assert(more =~= Seq::<BeatMarker>::empty());
            assert(fired + more =~= fired);
        }
    }
}

/// Played from the top without a loop, pausing and playing again as often
/// as asked, a song fires every marker before its end once, in order, and
/// the last buffer stops play and goes back to the top.
pub proof fn lemma_play_through_fires_every_beat_once(s: EngineView, t: TimelineView, inputs: Seq<EngineInput>)
    requires
        synced(s, t),
        s.sample_position == 0,
        s.loop_range is None,
        markers_sorted(t.beat_markers),
        t.events.len() <= usize::MAX,
        t.beat_markers.len() <= usize::MAX,
        inputs.len() > 0,
        forall|k: int| 0 <= k < inputs.len() ==> is_play_pause_or_buffer(#[trigger] inputs[k]),
        stays_before_boundary(s, t, inputs.drop_last()),
        inputs.last() is Buffer,
        run(s, inputs.drop_last()).0.is_playing,
        run(s, inputs.drop_last()).0.sample_position + BUFFER_FRAMES >= t.total_samples,
    ensures
        run(s, inputs).1 == t.beat_markers.take(markers_before(t.beat_markers, t.total_samples) as int),
        (forall|k: int| 0 <= k < t.beat_markers.len() ==> (#[trigger] t.beat_markers[k]).sample_position < t.total_samples)
            ==> run(s, inputs).1 == t.beat_markers,
        !run(s, inputs).0.is_playing,
        run(s, inputs).0.sample_position == 0,
{
    let m = t.beat_markers;
    let prefix = inputs.drop_last();
    assert forall|k: int| 0 <= k < prefix.len() implies is_play_pause_or_buffer(#[trigger] prefix[k]) by {
        assert(prefix[k] == inputs[k]);
    }
    lemma_run_fires_markers_in_order(s, t, prefix);
    let (mid, fired) = run(s, prefix);
    lemma_buffer_fires_span(mid, t);
    assert(buffer_end(mid, t) == t.total_samples);
    lemma_markers_before_facts(m, mid.sample_position);
    lemma_markers_before_facts(m, t.total_samples);
    lemma_markers_before_grows(m, mid.sample_position, t.total_samples);
    assert(markers_before(m, 0) == 0);
    let total = markers_before(m, t.total_samples) as int;
    assert(fired + advance_step(mid, t).1.beats =~= m.take(total));
    if forall|k: int| 0 <= k < m.len() ==> (#[trigger] m[k]).sample_position < t.total_samples {
        if total < m.len() {
            assert(m[total].sample_position < t.total_samples);
        }
        assert(m.take(total) =~= m);
    }
}

/// A loop plays round and round: a cycle from the loop's start (buffers,
/// pauses and plays, the last buffer reaching the loop's end) fires the
/// markers of the loop once, in order, and leaves the engine playing where
/// the cycle began, so every cycle fires the same beats.
pub proof fn lemma_loop_cycle_repeats(s: EngineView, t: TimelineView, inputs: Seq<EngineInput>, start: u64, end: u64)
    requires
        synced(s, t),
        s.loop_range == Some((start, end)),
        s.sample_position == start,
        start <= end,
        markers_sorted(t.beat_markers),
        t.events.len() <= usize::MAX,
        t.beat_markers.len() <= usize::MAX,
        inputs.len() > 0,
        forall|k: int| 0 <= k < inputs.len() ==> is_play_pause_or_buffer(#[trigger] inputs[k]),
        stays_before_boundary(s, t, inputs.drop_last()),
        inputs.last() is Buffer,
        run(s, inputs.drop_last()).0.is_playing,
        run(s, inputs.drop_last()).0.sample_position + BUFFER_FRAMES >= end,
    ensures
        run(s, inputs).1 == t.beat_markers.subrange(
            markers_before(t.beat_markers, start) as int,
            markers_before(t.beat_markers, end) as int),
        run(s, inputs).0 == (EngineView { is_playing: true, ..s }),
{
    let m = t.beat_markers;
    let prefix = inputs.drop_last();
    assert forall|k: int| 0 <= k < prefix.len() implies is_play_pause_or_buffer(#[trigger] prefix[k]) by {
        assert(prefix[k] == inputs[k]);
    }
    lemma_run_fires_markers_in_order(s, t, prefix);
    let (mid, fired) = run(s, prefix);
    lemma_buffer_fires_span(mid, t);
    assert(buffer_end(mid, t) == end);
    lemma_markers_before_facts(m, start);
    lemma_markers_before_facts(m, mid.sample_position);
    lemma_markers_before_facts(m, end);
    lemma_markers_before_grows(m, start, mid.sample_position);
    lemma_markers_before_grows(m, mid.sample_position, end);
    let a = markers_before(m, start) as int;
    let b = markers_before(m, mid.sample_position) as int;
    let c = markers_before(m, end) as int;
    assert(m.subrange(a, b) + m.subrange(b, c) =~= m.subrange(a, c));
    lemma_events_before_facts(t.events, start);
    assert(advance_step(mid, t).0 == rewound(mid, t, start));
}

} // verus!
