//! MIDI timelines for the tab player: note and metronome events at sample
//! positions, and beat markers that drive the cursor. Sample positions come
//! from the tempo map, which the caller computes; this module decides which
//! events sound, with which keys, and keeps them in playing order.
use vstd::prelude::*;
use crate::tab_models::{TabNote, TrackInfo, TrackView, ScoreBeat, ScoreBeatView, ScoreBar};

verus! {

/// The MIDI channel of the metronome clicks.
pub const METRONOME_CHANNEL: u8 = 9;
/// The MIDI channel of the guitar.
pub const GUITAR_CHANNEL: u8 = 0;
/// Claves, for the first click of a bar.
pub const METRONOME_ACCENT_NOTE: u8 = 75;
/// Side stick, for the other clicks.
pub const METRONOME_REGULAR_NOTE: u8 = 37;
pub const METRONOME_ACCENT_VELOCITY: u8 = 100;
pub const METRONOME_REGULAR_VELOCITY: u8 = 80;
pub const GUITAR_VELOCITY: u8 = 80;

#[derive(Debug, Clone, Copy, PartialEq, Eq, Structural)]
pub enum MidiEvent {
    NoteOn { sample_position: u64, channel: u8, key: u8, velocity: u8 },
    NoteOff { sample_position: u64, channel: u8, key: u8 },
}

impl MidiEvent {
    pub open spec fn position(self) -> u64 {
        match self {
            MidiEvent::NoteOn { sample_position, .. } => sample_position,
            MidiEvent::NoteOff { sample_position, .. } => sample_position,
        }
    }

    pub fn sample_position(&self) -> (position: u64)
        ensures
            position == self.position(),
    {
        match self {
            MidiEvent::NoteOn { sample_position, .. } => *sample_position,
            MidiEvent::NoteOff { sample_position, .. } => *sample_position,
        }
    }
}

#[derive(Debug, Clone, Copy, PartialEq, Eq, Structural)]
pub struct BeatMarker {
    pub sample_position: u64,
    pub beat_index: usize,
}

#[derive(Debug, Clone)]
pub struct MidiTimeline {
    pub events: Vec<MidiEvent>,
    pub beat_markers: Vec<BeatMarker>,
    pub total_samples: u64,
}

pub struct TimelineView {
    pub events: Seq<MidiEvent>,
    pub beat_markers: Seq<BeatMarker>,
    pub total_samples: u64,
}

impl View for MidiTimeline {
    type V = TimelineView;

    open spec fn view(&self) -> TimelineView {
        TimelineView { events: self.events@, beat_markers: self.beat_markers@, total_samples: self.total_samples }
    }
}

// ---------------------------------------------------------------------
// Keys

pub open spec fn saturating_add_u8(a: u8, b: u8) -> u8 {
    if a + b > 255 { 255 } else { (a + b) as u8 }
}

/// The MIDI key of a note: string 1 is the highest, i.e. the last entry of
/// the low-to-high tuning; fret and capo are added, saturating at 255. A
/// string the tuning does not have gives key 0.
pub open spec fn midi_key(note: TabNote, track: TrackView) -> u8 {
    let index = if track.tuning.len() >= note.string { track.tuning.len() - note.string } else { 0 };
    if index >= track.tuning.len() {
        0
    } else {
        saturating_add_u8(saturating_add_u8(track.tuning[index as int], note.fret), track.capo)
    }
}

pub fn compute_midi_key(note: &TabNote, track: &TrackInfo) -> (key: u8)
    ensures
        key == midi_key(*note, track@),
{
    let len = track.tuning.len();
    let string = note.string as usize;
    let index = if len >= string { len - string } else { 0 };
    if index >= len {
        return 0;
    }
    let open_string = track.tuning[index];
    open_string.saturating_add(note.fret).saturating_add(track.capo)
}

// ---------------------------------------------------------------------
// Playing order

pub open spec fn events_sorted(events: Seq<MidiEvent>) -> bool {
    forall|i: int, j: int| 0 <= i <= j < events.len() ==> events[i].position() <= events[j].position()
}

pub open spec fn event_at(k: u64) -> spec_fn(MidiEvent) -> bool {
    |event: MidiEvent| event.position() == k
}

/// The events at sample `k`, in their order.
pub open spec fn events_at(events: Seq<MidiEvent>, k: u64) -> Seq<MidiEvent> {
    events.filter(event_at(k))
}

pub open spec fn markers_sorted(markers: Seq<BeatMarker>) -> bool {
    forall|i: int, j: int| 0 <= i <= j < markers.len() ==> markers[i].sample_position <= markers[j].sample_position
}

pub open spec fn marker_at(k: u64) -> spec_fn(BeatMarker) -> bool {
    |marker: BeatMarker| marker.sample_position == k
}

/// The markers at sample `k`, in their order.
pub open spec fn markers_at(markers: Seq<BeatMarker>, k: u64) -> Seq<BeatMarker> {
    markers.filter(marker_at(k))
}

proof fn lemma_filter_none<A>(s: Seq<A>, pred: spec_fn(A) -> bool)
    requires
        forall|i: int| 0 <= i < s.len() ==> !pred(s[i]),
    ensures
        s.filter(pred) == Seq::<A>::empty(),
    decreases s.len(),
{
    reveal(Seq::filter);
    if s.len() > 0 {
        lemma_filter_none(s.drop_last(), pred);
    }
}

/// Inserting `item` where everything before is not after it and everything
/// from there on is after it appends it to the items of its own key.
proof fn lemma_insert_filter<A>(s: Seq<A>, j: int, item: A, pred: spec_fn(A) -> bool)
    requires
        0 <= j <= s.len(),
        pred(item) ==> forall|i: int| j <= i < s.len() ==> !pred(s[i]),
    ensures
        s.insert(j, item).filter(pred) == if pred(item) { s.filter(pred).push(item) } else { s.filter(pred) },
{
    broadcast use vstd::seq_lib::group_seq_properties;
    let head = s.take(j);
    let tail = s.skip(j);
    assert(s =~= head + tail);
    assert(s.insert(j, item) =~= head.push(item) + tail);
    Seq::filter_distributes_over_add(head.push(item), tail, pred);
    Seq::filter_distributes_over_add(head, tail, pred);
    head.lemma_filter_push(item, pred);
    if pred(item) {
        lemma_filter_none(tail, pred);
        assert(s.filter(pred) =~= head.filter(pred));
    }
}

/// Sorts events by sample position, keeping the order of events at the
/// same sample.
pub fn sort_events(events: &Vec<MidiEvent>) -> (sorted: Vec<MidiEvent>)
    ensures
        sorted@.len() == events@.len(),
        events_sorted(sorted@),
        forall|k: u64| #[trigger] events_at(sorted@, k) == events_at(events@, k),
{
    broadcast use vstd::seq_lib::group_seq_properties;
    let mut sorted: Vec<MidiEvent> = Vec::new();
    let mut i: usize = 0;
    while i < events.len()
        invariant
            i <= events@.len(),
            sorted@.len() == i,
            events_sorted(sorted@),
            forall|k: u64| #[trigger] events_at(sorted@, k) == events_at(events@.take(i as int), k),
        decreases events@.len() - i,
    {
        let event = events[i];
        let key = event.sample_position();
        let mut j: usize = sorted.len();
        while j > 0 && sorted[j - 1].sample_position() > key
            invariant
                j <= sorted@.len(),
                forall|m: int| j <= m < sorted@.len() ==> sorted@[m].position() > key,
            decreases j,
        {
            j -= 1;
        }
        proof {
            let s = sorted@;
            assert forall|m: int| 0 <= m < j implies s[m].position() <= key by {
                assert(s[j - 1].position() <= key);
            }
            assert forall|k: u64| #[trigger] events_at(s.insert(j as int, event), k) == events_at(events@.take(i + 1), k) by {
                assert(events_at(s, k) == events_at(events@.take(i as int), k));
                lemma_insert_filter(s, j as int, event, event_at(k));
                assert(events@.take(i + 1) =~= events@.take(i as int).push(event));
                events@.take(i as int).lemma_filter_push(event, event_at(k));
            }
        }
        sorted.insert(j, event);
        i += 1;
    }
    assert(events@.take(i as int) =~= events@);
    sorted
}

/// Sorts beat markers by sample position, keeping the order of markers at
/// the same sample.
pub fn sort_markers(markers: &Vec<BeatMarker>) -> (sorted: Vec<BeatMarker>)
    ensures
        sorted@.len() == markers@.len(),
        markers_sorted(sorted@),
        forall|k: u64| #[trigger] markers_at(sorted@, k) == markers_at(markers@, k),
{
    broadcast use vstd::seq_lib::group_seq_properties;
    let mut sorted: Vec<BeatMarker> = Vec::new();
    let mut i: usize = 0;
    while i < markers.len()
        invariant
            i <= markers@.len(),
            sorted@.len() == i,
            markers_sorted(sorted@),
            forall|k: u64| #[trigger] markers_at(sorted@, k) == markers_at(markers@.take(i as int), k),
        decreases markers@.len() - i,
    {
        let marker = markers[i];
        let key = marker.sample_position;
        let mut j: usize = sorted.len();
        while j > 0 && sorted[j - 1].sample_position > key
            invariant
                j <= sorted@.len(),
                forall|m: int| j <= m < sorted@.len() ==> sorted@[m].sample_position > key,
            decreases j,
        {
            j -= 1;
        }
        proof {
            let s = sorted@;
            assert forall|m: int| 0 <= m < j implies s[m].sample_position <= key by {
                assert(s[j - 1].sample_position <= key);
            }
            assert forall|k: u64| #[trigger] markers_at(s.insert(j as int, marker), k) == markers_at(markers@.take(i + 1), k) by {
                assert(markers_at(s, k) == markers_at(markers@.take(i as int), k));
                lemma_insert_filter(s, j as int, marker, marker_at(k));
                assert(markers@.take(i + 1) =~= markers@.take(i as int).push(marker));
                markers@.take(i as int).lemma_filter_push(marker, marker_at(k));
            }
        }
        sorted.insert(j, marker);
        i += 1;
    }
    assert(markers@.take(i as int) =~= markers@);
    sorted
}

// ---------------------------------------------------------------------
// Building a timeline

pub open spec fn beat_views(beats: Seq<ScoreBeat>) -> Seq<ScoreBeatView> {
    beats.map_values(|beat: ScoreBeat| beat@)
}

pub open spec fn click_views(clicks: Seq<Vec<(u64, u64)>>) -> Seq<Seq<(u64, u64)>> {
    clicks.map_values(|bar: Vec<(u64, u64)>| bar@)
}

/// Click `k` of a bar, sounding from `click.0` to `click.1`: the first
/// click of the bar is accented.
pub open spec fn click_pair(k: int, click: (u64, u64)) -> Seq<MidiEvent> {
    let (key, velocity) = if k == 0 {
        (METRONOME_ACCENT_NOTE, METRONOME_ACCENT_VELOCITY)
    } else {
        (METRONOME_REGULAR_NOTE, METRONOME_REGULAR_VELOCITY)
    };
    seq![
        MidiEvent::NoteOn { sample_position: click.0, channel: METRONOME_CHANNEL, key, velocity },
        MidiEvent::NoteOff { sample_position: click.1, channel: METRONOME_CHANNEL, key },
    ]
}

pub open spec fn click_events(clicks: Seq<(u64, u64)>) -> Seq<MidiEvent>
    decreases clicks.len(),
{
    if clicks.len() == 0 {
        Seq::empty()
    } else {
        click_events(clicks.drop_last()) + click_pair(clicks.len() - 1, clicks.last())
    }
}

/// A note sounds from `start` to `end` on the guitar channel, unless its
/// key is past the MIDI range.
pub open spec fn note_pair(note: TabNote, track: TrackView, start: u64, end: u64) -> Seq<MidiEvent> {
    let key = midi_key(note, track);
    if key > 127 {
        Seq::empty()
    } else {
        seq![
            MidiEvent::NoteOn { sample_position: start, channel: GUITAR_CHANNEL, key, velocity: GUITAR_VELOCITY },
            MidiEvent::NoteOff { sample_position: end, channel: GUITAR_CHANNEL, key },
        ]
    }
}

pub open spec fn note_events(notes: Seq<TabNote>, track: TrackView, start: u64, end: u64) -> Seq<MidiEvent>
    decreases notes.len(),
{
    if notes.len() == 0 {
        Seq::empty()
    } else {
        note_events(notes.drop_last(), track, start, end) + note_pair(notes.last(), track, start, end)
    }
}

/// A rest sounds nothing.
pub open spec fn beat_events(beat: ScoreBeatView, track: TrackView, span: (u64, u64)) -> Seq<MidiEvent> {
    if beat.is_rest { Seq::empty() } else { note_events(beat.notes, track, span.0, span.1) }
}

/// The events of beats `first..first + count`.
pub open spec fn run_events(beats: Seq<ScoreBeatView>, spans: Seq<(u64, u64)>, track: TrackView, first: int, count: nat) -> Seq<MidiEvent>
    decreases count,
{
    if count == 0 {
        Seq::empty()
    } else {
        let last = first + count - 1;
        run_events(beats, spans, track, first, (count - 1) as nat) + beat_events(beats[last], track, spans[last])
    }
}

/// The events of a bar: its clicks (when the metronome is on), then its beats.
pub open spec fn bar_events(bar: ScoreBar, clicks: Seq<(u64, u64)>, metronome: bool, beats: Seq<ScoreBeatView>, spans: Seq<(u64, u64)>, track: TrackView) -> Seq<MidiEvent> {
    (if metronome { click_events(clicks) } else { Seq::empty() })
        + run_events(beats, spans, track, bar.first_beat_index as int, bar.beat_count as nat)
}

/// The events of the bars, bar after bar, before sorting.
pub open spec fn timeline_events(bars: Seq<ScoreBar>, clicks: Seq<Seq<(u64, u64)>>, metronome: bool, beats: Seq<ScoreBeatView>, spans: Seq<(u64, u64)>, track: TrackView) -> Seq<MidiEvent>
    decreases bars.len(),
{
    if bars.len() == 0 {
        Seq::empty()
    } else {
        timeline_events(bars.drop_last(), clicks, metronome, beats, spans, track)
            + bar_events(bars.last(), clicks[bars.len() - 1], metronome, beats, spans, track)
    }
}

/// One marker per beat of a bar, at the beat's start.
pub open spec fn run_markers(beats: Seq<ScoreBeatView>, spans: Seq<(u64, u64)>, first: int, count: nat) -> Seq<BeatMarker>
    decreases count,
{
    if count == 0 {
        Seq::empty()
    } else {
        let last = first + count - 1;
        run_markers(beats, spans, first, (count - 1) as nat).push(BeatMarker { sample_position: spans[last].0, beat_index: beats[last].beat_index })
    }
}

pub open spec fn timeline_markers(bars: Seq<ScoreBar>, beats: Seq<ScoreBeatView>, spans: Seq<(u64, u64)>) -> Seq<BeatMarker>
    decreases bars.len(),
{
    if bars.len() == 0 {
        Seq::empty()
    } else {
        timeline_markers(bars.drop_last(), beats, spans)
            + run_markers(beats, spans, bars.last().first_beat_index as int, bars.last().beat_count as nat)
    }
}

/// The length of a timeline: the end of the last bar's last beat, or 0.
pub open spec fn timeline_total(bars: Seq<ScoreBar>, spans: Seq<(u64, u64)>) -> u64 {
    if bars.len() == 0 {
        0
    } else {
        let last = bars.last();
        let index = last.first_beat_index + (if last.beat_count > 0 { last.beat_count - 1 } else { 0 });
        if index < spans.len() { spans[index].1 } else { 0 }
    }
}

/// The events of one note, appended.
fn push_note_events(events: &mut Vec<MidiEvent>, note: &TabNote, track: &TrackInfo, start: u64, end: u64)
    ensures
        final(events)@ == old(events)@ + note_pair(*note, track@, start, end),
{
    let key = compute_midi_key(note, track);
    if key <= 127 {
        events.push(MidiEvent::NoteOn { sample_position: start, channel: GUITAR_CHANNEL, key, velocity: GUITAR_VELOCITY });
        events.push(MidiEvent::NoteOff { sample_position: end, channel: GUITAR_CHANNEL, key });
    }
    assert(final(events)@ =~= old(events)@ + note_pair(*note, track@, start, end));
}

/// The events of one beat, appended.
fn push_beat_events(events: &mut Vec<MidiEvent>, beat: &ScoreBeat, track: &TrackInfo, span: (u64, u64))
    ensures
        final(events)@ == old(events)@ + beat_events(beat@, track@, span),
{
    if beat.is_rest {
        assert(final(events)@ =~= old(events)@ + beat_events(beat@, track@, span));
        return;
    }
    let mut i: usize = 0;
    while i < beat.notes.len()
        invariant
            !beat.is_rest,
            i <= beat.notes@.len(),
            events@ == old(events)@ + note_events(beat.notes@.take(i as int), track@, span.0, span.1),
        decreases beat.notes@.len() - i,
    {
        proof {
            assert(beat.notes@.take(i + 1).drop_last() =~= beat.notes@.take(i as int));
        }
        push_note_events(events, &beat.notes[i], track, span.0, span.1);
        i += 1;
        assert(events@ =~= old(events)@ + note_events(beat.notes@.take(i as int), track@, span.0, span.1));
    }
    assert(beat.notes@.take(i as int) =~= beat.notes@);
}

/// The events of the clicks of one bar, appended.
fn push_click_events(events: &mut Vec<MidiEvent>, clicks: &Vec<(u64, u64)>)
    ensures
        final(events)@ == old(events)@ + click_events(clicks@),
{
    let mut k: usize = 0;
    while k < clicks.len()
        invariant
            k <= clicks@.len(),
            events@ == old(events)@ + click_events(clicks@.take(k as int)),
        decreases clicks@.len() - k,
    {
        proof {
            assert(clicks@.take(k + 1).drop_last() =~= clicks@.take(k as int));
        }
        let (on, off) = clicks[k];
        let (key, velocity) = if k == 0 {
            (METRONOME_ACCENT_NOTE, METRONOME_ACCENT_VELOCITY)
        } else {
            (METRONOME_REGULAR_NOTE, METRONOME_REGULAR_VELOCITY)
        };
        events.push(MidiEvent::NoteOn { sample_position: on, channel: METRONOME_CHANNEL, key, velocity });
        events.push(MidiEvent::NoteOff { sample_position: off, channel: METRONOME_CHANNEL, key });
        k += 1;
        assert(events@ =~= old(events)@ + click_events(clicks@.take(k as int)));
    }
    assert(clicks@.take(k as int) =~= clicks@);
}

/// Builds the timeline of track `track_index` of a score, given the sample
/// span of each beat and, per bar, the span of each metronome click. A track
/// index past the last track gives an empty timeline.
pub fn assemble_timeline(
    beats: &Vec<ScoreBeat>,
    bars: &Vec<ScoreBar>,
    tracks: &Vec<TrackInfo>,
    track_index: usize,
    include_metronome: bool,
    beat_spans: &Vec<(u64, u64)>,
    click_spans: &Vec<Vec<(u64, u64)>>,
) -> (timeline: MidiTimeline)
    requires
        beat_spans@.len() == beats@.len(),
        forall|b: int| 0 <= b < bars@.len() ==> (#[trigger] bars@[b]).first_beat_index + bars@[b].beat_count <= beats@.len(),
        include_metronome ==> click_spans@.len() >= bars@.len(),
    ensures
        track_index >= tracks@.len() ==> timeline.events@.len() == 0 && timeline.beat_markers@.len() == 0 && timeline.total_samples == 0,
        track_index < tracks@.len() ==> {
            let raw = timeline_events(bars@, click_views(click_spans@), include_metronome, beat_views(beats@), beat_spans@, tracks@[track_index as int]@);
            let marks = timeline_markers(bars@, beat_views(beats@), beat_spans@);
            &&& timeline.events@.len() == raw.len()
            &&& events_sorted(timeline.events@)
            &&& forall|k: u64| #[trigger] events_at(timeline.events@, k) == events_at(raw, k)
            &&& timeline.beat_markers@.len() == marks.len()
            &&& markers_sorted(timeline.beat_markers@)
            &&& forall|k: u64| #[trigger] markers_at(timeline.beat_markers@, k) == markers_at(marks, k)
            &&& timeline.total_samples == timeline_total(bars@, beat_spans@)
        },
{
    if track_index >= tracks.len() {
        return MidiTimeline { events: Vec::new(), beat_markers: Vec::new(), total_samples: 0 };
    }
    let track = &tracks[track_index];
    let beat_count_total = beats.len();
    let ghost beat_view = beat_views(beats@);
    let ghost clicks_view = click_views(click_spans@);
    let mut events: Vec<MidiEvent> = Vec::new();
    let mut markers: Vec<BeatMarker> = Vec::new();
    let mut b: usize = 0;
    while b < bars.len()
        invariant
            b <= bars@.len(),
            beat_spans@.len() == beats@.len(),
            beat_count_total == beats@.len(),
            beat_view == beat_views(beats@),
            clicks_view == click_views(click_spans@),
            forall|c: int| 0 <= c < bars@.len() ==> (#[trigger] bars@[c]).first_beat_index + bars@[c].beat_count <= beats@.len(),
            include_metronome ==> click_spans@.len() >= bars@.len(),
            events@ == timeline_events(bars@.take(b as int), clicks_view, include_metronome, beat_view, beat_spans@, track@),
            markers@ == timeline_markers(bars@.take(b as int), beat_view, beat_spans@),
        decreases bars@.len() - b,
    {
        let bar = bars[b];
        let ghost before_events = events@;
        let ghost before_markers = markers@;
        if include_metronome {
            push_click_events(&mut events, &click_spans[b]);
        }
        let mut offset: usize = 0;
        while offset < bar.beat_count
            invariant
                b < bars@.len(),
                bar == bars@[b as int],
                offset <= bar.beat_count,
                bar.first_beat_index + bar.beat_count <= beats@.len(),
                beat_count_total == beats@.len(),
                beat_spans@.len() == beats@.len(),
                beat_view == beat_views(beats@),
                events@ == before_events + (if include_metronome { click_events(clicks_view[b as int]) } else { Seq::empty() })
                    + run_events(beat_view, beat_spans@, track@, bar.first_beat_index as int, offset as nat),
                markers@ == before_markers + run_markers(beat_view, beat_spans@, bar.first_beat_index as int, offset as nat),
            decreases bar.beat_count - offset,
        {
            let index = bar.first_beat_index + offset;
            let beat = &beats[index];
            let span = beat_spans[index];
            markers.push(BeatMarker { sample_position: span.0, beat_index: beat.beat_index });
            push_beat_events(&mut events, beat, track, span);
            offset += 1;
            proof {
                assert(events@ =~= before_events + (if include_metronome { click_events(clicks_view[b as int]) } else { Seq::empty() })
                    + run_events(beat_view, beat_spans@, track@, bar.first_beat_index as int, offset as nat));
                assert(markers@ =~= before_markers + run_markers(beat_view, beat_spans@, bar.first_beat_index as int, offset as nat));
            }
        }
        proof {
            assert(bars@.take(b + 1).drop_last() =~= bars@.take(b as int));
            assert(bars@.take(b + 1).last() == bar);
        }
        b += 1;
        assert(events@ =~= timeline_events(bars@.take(b as int), clicks_view, include_metronome, beat_view, beat_spans@, track@));
        assert(markers@ =~= timeline_markers(bars@.take(b as int), beat_view, beat_spans@));
    }
    assert(bars@.take(b as int) =~= bars@);
    let total_samples: u64 = if bars.len() == 0 {
        0
    } else {
        let last = bars[bars.len() - 1];
        assert(last.first_beat_index + last.beat_count <= beats@.len());
        let index = last.first_beat_index + if last.beat_count > 0 { last.beat_count - 1 } else { 0 };
        if index < beat_spans.len() { beat_spans[index].1 } else { 0 }
    };
    let sorted_events = sort_events(&events);
    let sorted_markers = sort_markers(&markers);
    MidiTimeline { events: sorted_events, beat_markers: sorted_markers, total_samples }
}

} // verus!
