//! Guitar Pro 7/8 (.gp) scores: the score document (`Content/score.gpif`
//! of the archive) read into the score of one track. Master bars list one
//! bar per track; a bar lists its voices, a voice its beats, a beat its
//! rhythm and notes, all by id.
use vstd::prelude::*;
use std::collections::HashMap;
use crate::gp7_records::{id_elements, plain_elements, section, spans_view, scan_id_elements, scan_plain_elements, find_section, tag_ids, rhythm_of, note_of, beat_of, master_bar_of, track_of, read_rhythm, read_note, read_beat, read_master_bar, read_track, extract_tag_ids, GpNote, GpBeat, BeatRecord, GpMasterBar, MasterBarRecord};
use crate::xml_text::{cdata_text, extract_cdata_text, find_text, slice_chars};
use crate::text::{find_from, chars_of, string_from_range, push_text};
use crate::tab_models::{TabNote, NoteDuration, TrackInfo, TrackView, ScoreBeat, ScoreBeatView, ScoreBar, ScoreLayout, SongTempo};
use crate::gp5_parser::tracks_view;
use crate::gp5_format::default_track;
use crate::gp5_score::{find_default_track, score_beats};
use std::io::Read;

verus! {

broadcast use vstd::std_specs::hash::group_hash_axioms;

#[derive(Debug)]
pub enum Gp7Error {
    /// The file could not be read.
    Io(String),
    /// The archive or its score document could not be read.
    Zip(String),
    Xml(String),
}

/// What a score error says.
pub open spec fn gp7_error_text(error: Gp7Error) -> Seq<char> {
    match error {
        Gp7Error::Io(message) => "IO error: "@ + message@,
        Gp7Error::Zip(message) => "ZIP error: "@ + message@,
        Gp7Error::Xml(message) => "XML error: "@ + message@,
    }
}

impl Gp7Error {
    /// The error as the application shows it.
    pub fn message(&self) -> (text: String)
        ensures
            text@ == gp7_error_text(*self),
    {
        let mut text = String::new();
        match self {
            Gp7Error::Io(message) => {
                push_text(&mut text, "IO error: ");
                push_text(&mut text, message.as_str());
            },
            Gp7Error::Zip(message) => {
                push_text(&mut text, "ZIP error: ");
                push_text(&mut text, message.as_str());
            },
            Gp7Error::Xml(message) => {
                push_text(&mut text, "XML error: ");
                push_text(&mut text, message.as_str());
            },
        }
        text
    }
}

// ---------------------------------------------------------------------
// Record maps

/// The records of `elements` in `text`, by id; a later id replaces an earlier.
pub open spec fn records_by_id<V>(text: Seq<char>, elements: Seq<(usize, int, int)>, read: spec_fn(Seq<char>) -> V) -> Map<usize, V>
    decreases elements.len(),
{
    if elements.len() == 0 {
        Map::empty()
    } else {
        let last = elements.last();
        records_by_id(text, elements.drop_last(), read).insert(last.0, read(text.subrange(last.1, last.2)))
    }
}

pub open spec fn rhythm_reader() -> spec_fn(Seq<char>) -> NoteDuration {
    |t: Seq<char>| rhythm_of(t)
}

pub open spec fn note_reader() -> spec_fn(Seq<char>) -> GpNote {
    |t: Seq<char>| note_of(t)
}

pub open spec fn beat_reader() -> spec_fn(Seq<char>) -> BeatRecord {
    |t: Seq<char>| beat_of(t)
}

pub open spec fn voice_reader() -> spec_fn(Seq<char>) -> Seq<usize> {
    |t: Seq<char>| tag_ids(t, "Beats"@)
}

pub open spec fn bar_reader() -> spec_fn(Seq<char>) -> Seq<usize> {
    |t: Seq<char>| tag_ids(t, "Voices"@)
}

/// The records in the section `open` … `close` of `xml`, by id; none
/// without that section.
pub open spec fn section_records<V>(xml: Seq<char>, open: Seq<char>, close: Seq<char>, element_open: Seq<char>, element_close: Seq<char>, read: spec_fn(Seq<char>) -> V) -> Map<usize, V> {
    match section(xml, open, close) {
        Some(s) => records_by_id(s, id_elements(s, 0, element_open, element_close), read),
        None => Map::empty(),
    }
}

pub open spec fn rhythms_of(xml: Seq<char>) -> Map<usize, NoteDuration> {
    records_by_id(xml, id_elements(xml, 0, "<Rhythm id=\""@, "</Rhythm>"@), rhythm_reader())
}

pub open spec fn notes_of(xml: Seq<char>) -> Map<usize, GpNote> {
    section_records(xml, "<Notes>\n<Note id="@, "</Notes>"@, "<Note id=\""@, "</Note>"@, note_reader())
}

pub open spec fn beats_of(xml: Seq<char>) -> Map<usize, BeatRecord> {
    section_records(xml, "<Beats>\n<Beat id="@, "</Beats>"@, "<Beat id=\""@, "</Beat>"@, beat_reader())
}

pub open spec fn voices_of(xml: Seq<char>) -> Map<usize, Seq<usize>> {
    section_records(xml, "<Voices>\n<Voice id="@, "</Voices>"@, "<Voice id=\""@, "</Voice>"@, voice_reader())
}

pub open spec fn bars_of(xml: Seq<char>) -> Map<usize, Seq<usize>> {
    section_records(xml, "<Bars>\n<Bar id="@, "</Bars>"@, "<Bar id=\""@, "</Bar>"@, bar_reader())
}

/// The master bars, in order.
pub open spec fn master_bars_of(xml: Seq<char>) -> Seq<MasterBarRecord> {
    match section(xml, "<MasterBars>"@, "</MasterBars>"@) {
        Some(s) => plain_elements(s, 0, "<MasterBar>"@, "</MasterBar>"@).map_values(|e: (int, int)| master_bar_of(s.subrange(e.0, e.1))),
        None => Seq::empty(),
    }
}

/// Where the track list starts: its `<Tracks>` followed by a `<Track id=`,
/// or else the first `<Tracks>` ending a line.
pub open spec fn tracks_start(xml: Seq<char>) -> Option<int> {
    match find_from(xml, 0, "<Tracks>\n<Track id="@) {
        Some(p) => Some(p),
        None => find_from(xml, 0, "<Tracks>\n"@),
    }
}

/// The tracks, in order.
pub open spec fn tracks_of(xml: Seq<char>) -> Seq<TrackView> {
    match tracks_start(xml) {
        Some(start) => match find_from(xml, start, "</Tracks>"@) {
            Some(end) => {
                let s = xml.subrange(start, end);
                plain_elements(s, 0, "<Track id=\""@, "</Track>"@).map_values(|e: (int, int)| track_of(s.subrange(e.0, e.1)))
            },
            None => Seq::empty(),
        },
        None => Seq::empty(),
    }
}

pub open spec fn beat_map_view(m: Map<usize, GpBeat>) -> Map<usize, BeatRecord> {
    m.map_values(|b: GpBeat| b@)
}

pub open spec fn id_map_view(m: Map<usize, Vec<usize>>) -> Map<usize, Seq<usize>> {
    m.map_values(|v: Vec<usize>| v@)
}

pub fn extract_rhythms(xml: &Vec<char>) -> (rhythms: HashMap<usize, NoteDuration>)
    ensures
        rhythms@ == rhythms_of(xml@),
{
    let spans = scan_id_elements(xml, "<Rhythm id=\"", "</Rhythm>");
    let ghost elements = id_elements(xml@, 0, "<Rhythm id=\""@, "</Rhythm>"@);
    let mut rhythms: HashMap<usize, NoteDuration> = HashMap::new();
    let mut i: usize = 0;
    while i < spans.len()
        invariant
            i <= spans@.len(),
            spans_view(spans@) == elements,
            forall|k: int| 0 <= k < spans@.len() ==> (#[trigger] spans@[k]).1 <= spans@[k].2 <= xml@.len(),
            rhythms@ == records_by_id(xml@, elements.take(i as int), rhythm_reader()),
        decreases spans@.len() - i,
    {
        let (id, start, end) = spans[i];
        let element = slice_chars(xml, start, end);
        let record = read_rhythm(&element);
        proof {
            assert(elements.take(i + 1).drop_last() =~= elements.take(i as int));
            assert(elements[i as int] == (id, start as int, end as int));
        }
        rhythms.insert(id, record);
        i += 1;
    }
    assert(elements.take(i as int) =~= elements);
    rhythms
}

fn extract_note_records(section: &Vec<char>) -> (notes: HashMap<usize, GpNote>)
    ensures
        notes@ == records_by_id(section@, id_elements(section@, 0, "<Note id=\""@, "</Note>"@), note_reader()),
{
    let spans = scan_id_elements(section, "<Note id=\"", "</Note>");
    let ghost elements = id_elements(section@, 0, "<Note id=\""@, "</Note>"@);
    let mut notes: HashMap<usize, GpNote> = HashMap::new();
    let mut i: usize = 0;
    while i < spans.len()
        invariant
            i <= spans@.len(),
            spans_view(spans@) == elements,
            forall|k: int| 0 <= k < spans@.len() ==> (#[trigger] spans@[k]).1 <= spans@[k].2 <= section@.len(),
            notes@ == records_by_id(section@, elements.take(i as int), note_reader()),
        decreases spans@.len() - i,
    {
        let (id, start, end) = spans[i];
        let element = slice_chars(section, start, end);
        let record = read_note(&element);
        proof {
            assert(elements.take(i + 1).drop_last() =~= elements.take(i as int));
            assert(elements[i as int] == (id, start as int, end as int));
        }
        notes.insert(id, record);
        i += 1;
    }
    assert(elements.take(i as int) =~= elements);
    notes
}

pub fn extract_notes(xml: &Vec<char>) -> (notes: HashMap<usize, GpNote>)
    ensures
        notes@ == notes_of(xml@),
{
    match find_section(xml, "<Notes>\n<Note id=", "</Notes>") {
        Some(section) => extract_note_records(&section),
        None => HashMap::new(),
    }
}

fn extract_beat_records(section: &Vec<char>) -> (beats: HashMap<usize, GpBeat>)
    ensures
        beat_map_view(beats@) == records_by_id(section@, id_elements(section@, 0, "<Beat id=\""@, "</Beat>"@), beat_reader()),
{
    let spans = scan_id_elements(section, "<Beat id=\"", "</Beat>");
    let ghost elements = id_elements(section@, 0, "<Beat id=\""@, "</Beat>"@);
    let mut beats: HashMap<usize, GpBeat> = HashMap::new();
    assert(beat_map_view(beats@) =~= Map::empty());
    let mut i: usize = 0;
    while i < spans.len()
        invariant
            i <= spans@.len(),
            spans_view(spans@) == elements,
            forall|k: int| 0 <= k < spans@.len() ==> (#[trigger] spans@[k]).1 <= spans@[k].2 <= section@.len(),
            beat_map_view(beats@) == records_by_id(section@, elements.take(i as int), beat_reader()),
        decreases spans@.len() - i,
    {
        let (id, start, end) = spans[i];
        let element = slice_chars(section, start, end);
        let record = read_beat(&element);
        proof {
            assert(elements.take(i + 1).drop_last() =~= elements.take(i as int));
            assert(elements[i as int] == (id, start as int, end as int));
            assert(beat_map_view(beats@.insert(id, record)) =~= beat_map_view(beats@).insert(id, record@));
        }
        beats.insert(id, record);
        i += 1;
    }
    assert(elements.take(i as int) =~= elements);
    beats
}

pub fn extract_beats(xml: &Vec<char>) -> (beats: HashMap<usize, GpBeat>)
    ensures
        beat_map_view(beats@) == beats_of(xml@),
{
    match find_section(xml, "<Beats>\n<Beat id=", "</Beats>") {
        Some(section) => extract_beat_records(&section),
        None => {
            let beats: HashMap<usize, GpBeat> = HashMap::new();
            assert(beat_map_view(beats@) =~= Map::empty());
            beats
        },
    }
}

fn extract_voice_records(section: &Vec<char>) -> (records: HashMap<usize, Vec<usize>>)
    ensures
        id_map_view(records@) == records_by_id(section@, id_elements(section@, 0, "<Voice id=\""@, "</Voice>"@), voice_reader()),
{
    let spans = scan_id_elements(section, "<Voice id=\"", "</Voice>");
    let ghost elements = id_elements(section@, 0, "<Voice id=\""@, "</Voice>"@);
    let mut records: HashMap<usize, Vec<usize>> = HashMap::new();
    assert(id_map_view(records@) =~= Map::empty());
    let mut i: usize = 0;
    while i < spans.len()
        invariant
            i <= spans@.len(),
            spans_view(spans@) == elements,
            forall|k: int| 0 <= k < spans@.len() ==> (#[trigger] spans@[k]).1 <= spans@[k].2 <= section@.len(),
            id_map_view(records@) == records_by_id(section@, elements.take(i as int), voice_reader()),
        decreases spans@.len() - i,
    {
        let (id, start, end) = spans[i];
        let element = slice_chars(section, start, end);
        let ids = extract_tag_ids(&element, "Beats");
        proof {
            assert(elements.take(i + 1).drop_last() =~= elements.take(i as int));
            assert(elements[i as int] == (id, start as int, end as int));
            assert(id_map_view(records@.insert(id, ids)) =~= id_map_view(records@).insert(id, ids@));
        }
        records.insert(id, ids);
        i += 1;
    }
    assert(elements.take(i as int) =~= elements);
    records
}

pub fn extract_voices(xml: &Vec<char>) -> (records: HashMap<usize, Vec<usize>>)
    ensures
        id_map_view(records@) == voices_of(xml@),
{
    match find_section(xml, "<Voices>\n<Voice id=", "</Voices>") {
        Some(section) => extract_voice_records(&section),
        None => {
            let records: HashMap<usize, Vec<usize>> = HashMap::new();
            assert(id_map_view(records@) =~= Map::empty());
            records
        },
    }
}

fn extract_bar_records(section: &Vec<char>) -> (records: HashMap<usize, Vec<usize>>)
    ensures
        id_map_view(records@) == records_by_id(section@, id_elements(section@, 0, "<Bar id=\""@, "</Bar>"@), bar_reader()),
{
    let spans = scan_id_elements(section, "<Bar id=\"", "</Bar>");
    let ghost elements = id_elements(section@, 0, "<Bar id=\""@, "</Bar>"@);
    let mut records: HashMap<usize, Vec<usize>> = HashMap::new();
    assert(id_map_view(records@) =~= Map::empty());
    let mut i: usize = 0;
    while i < spans.len()
        invariant
            i <= spans@.len(),
            spans_view(spans@) == elements,
            forall|k: int| 0 <= k < spans@.len() ==> (#[trigger] spans@[k]).1 <= spans@[k].2 <= section@.len(),
            id_map_view(records@) == records_by_id(section@, elements.take(i as int), bar_reader()),
        decreases spans@.len() - i,
    {
        let (id, start, end) = spans[i];
        let element = slice_chars(section, start, end);
        let ids = extract_tag_ids(&element, "Voices");
        proof {
            assert(elements.take(i + 1).drop_last() =~= elements.take(i as int));
            assert(elements[i as int] == (id, start as int, end as int));
            assert(id_map_view(records@.insert(id, ids)) =~= id_map_view(records@).insert(id, ids@));
        }
        records.insert(id, ids);
        i += 1;
    }
    assert(elements.take(i as int) =~= elements);
    records
}

pub fn extract_bars(xml: &Vec<char>) -> (records: HashMap<usize, Vec<usize>>)
    ensures
        id_map_view(records@) == bars_of(xml@),
{
    match find_section(xml, "<Bars>\n<Bar id=", "</Bars>") {
        Some(section) => extract_bar_records(&section),
        None => {
            let records: HashMap<usize, Vec<usize>> = HashMap::new();
            assert(id_map_view(records@) =~= Map::empty());
            records
        },
    }
}

pub open spec fn master_bars_view(bars: Seq<GpMasterBar>) -> Seq<MasterBarRecord> {
    bars.map_values(|b: GpMasterBar| b@)
}

pub fn extract_master_bars(xml: &Vec<char>) -> (bars: Vec<GpMasterBar>)
    ensures
        master_bars_view(bars@) == master_bars_of(xml@),
{
    let mut bars: Vec<GpMasterBar> = Vec::new();
    let section = match find_section(xml, "<MasterBars>", "</MasterBars>") {
        Some(section) => section,
        None => {
            assert(master_bars_view(bars@) =~= Seq::empty());
            return bars;
        },
    };
    let spans = scan_plain_elements(&section, "<MasterBar>", "</MasterBar>");
    let ghost elements = plain_elements(section@, 0, "<MasterBar>"@, "</MasterBar>"@);
    let ghost target = elements.map_values(|e: (int, int)| master_bar_of(section@.subrange(e.0, e.1)));
    let mut i: usize = 0;
    while i < spans.len()
        invariant
            i <= spans@.len(),
            crate::gp7_records::plain_spans_view(spans@) == elements,
            forall|k: int| 0 <= k < spans@.len() ==> (#[trigger] spans@[k]).0 <= spans@[k].1 <= section@.len(),
            target == elements.map_values(|e: (int, int)| master_bar_of(section@.subrange(e.0, e.1))),
            master_bars_view(bars@) == target.take(i as int),
        decreases spans@.len() - i,
    {
        let (start, end) = spans[i];
        let element = slice_chars(&section, start, end);
        let record = read_master_bar(&element);
        proof {
            assert(elements[i as int] == (start as int, end as int));
            assert(target[i as int] == master_bar_of(section@.subrange(start as int, end as int)));
            assert(master_bars_view(bars@.push(record)) =~= master_bars_view(bars@).push(record@));
            assert(target.take(i + 1) =~= target.take(i as int).push(target[i as int]));
        }
        bars.push(record);
        i += 1;
    }
    assert(target.take(i as int) =~= target);
    bars
}

pub fn extract_tracks(xml: &Vec<char>) -> (tracks: Vec<TrackInfo>)
    ensures
        tracks_view(tracks@) == tracks_of(xml@),
{
    let mut tracks: Vec<TrackInfo> = Vec::new();
    assert(tracks_view(tracks@) =~= Seq::empty());
    let start = match find_text(xml, 0, "<Tracks>\n<Track id=") {
        Some(p) => p,
        None => match find_text(xml, 0, "<Tracks>\n") {
            Some(p) => p,
            None => { return tracks; },
        },
    };
    let end = match find_text(xml, start, "</Tracks>") {
        Some(end) => end,
        None => { return tracks; },
    };
    let section = slice_chars(xml, start, end);
    let spans = scan_plain_elements(&section, "<Track id=\"", "</Track>");
    let ghost elements = plain_elements(section@, 0, "<Track id=\""@, "</Track>"@);
    let ghost target = elements.map_values(|e: (int, int)| track_of(section@.subrange(e.0, e.1)));
    let mut i: usize = 0;
    while i < spans.len()
        invariant
            i <= spans@.len(),
            crate::gp7_records::plain_spans_view(spans@) == elements,
            forall|k: int| 0 <= k < spans@.len() ==> (#[trigger] spans@[k]).0 <= spans@[k].1 <= section@.len(),
            target == elements.map_values(|e: (int, int)| track_of(section@.subrange(e.0, e.1))),
            tracks_view(tracks@) == target.take(i as int),
        decreases spans@.len() - i,
    {
        let (a, b) = spans[i];
        let element = slice_chars(&section, a, b);
        let track = read_track(&element);
        proof {
            assert(elements[i as int] == (a as int, b as int));
            assert(target[i as int] == track_of(section@.subrange(a as int, b as int)));
            assert(tracks_view(tracks@.push(track)) =~= tracks_view(tracks@).push(track@));
            assert(target.take(i + 1) =~= target.take(i as int).push(target[i as int]));
        }
        tracks.push(track);
        i += 1;
    }
    assert(target.take(i as int) =~= target);
    tracks
}

/// A field of the `<Score>` section (`<Title>`, `<Artist>`, …), without its
/// CDATA wrapper; empty when missing.
pub open spec fn score_field(xml: Seq<char>, field: Seq<char>) -> Seq<char> {
    match section(xml, "<Score>"@, "</Score>"@) {
        Some(s) => match cdata_text(s, field) {
            Some(t) => t,
            None => Seq::empty(),
        },
        None => Seq::empty(),
    }
}

fn chars_to_string(chars: &Vec<char>) -> (text: String)
    ensures
        text@ == chars@,
{
    string_from_range(chars, 0, chars.len())
}

pub fn extract_score_field(xml: &Vec<char>, field: &str) -> (value: String)
    ensures
        value@ == score_field(xml@, field@),
{
    match find_section(xml, "<Score>", "</Score>") {
        Some(section) => match extract_cdata_text(&section, field) {
            Some(t) => chars_to_string(&t),
            None => String::new(),
        },
        None => String::new(),
    }
}

/// The text of the first tempo automation's `<Value>`, up to its first
/// space (the value is "tempo denominator").
pub open spec fn tempo_text(xml: Seq<char>) -> Option<Seq<char>> {
    match find_from(xml, 0, "<Type>Tempo</Type>"@) {
        Some(tempo) => match find_from(xml, tempo, "<Value>"@) {
            Some(value) => {
                let start = value + 7;
                match find_from(xml, start, "</Value>"@) {
                    Some(end) => {
                        let text = xml.subrange(start, end);
                        Some(match find_from(text, 0, " "@) {
                            Some(space) => text.subrange(0, space),
                            None => text,
                        })
                    },
                    None => None,
                }
            },
            None => None,
        },
        None => None,
    }
}

pub open spec fn tempo_matches(tempo: SongTempo, expected: Option<Seq<char>>) -> bool {
    match (tempo, expected) {
        (SongTempo::Written(t), Some(e)) => t@ == e,
        (SongTempo::Unset, None) => true,
        _ => false,
    }
}

pub fn extract_global_tempo(xml: &Vec<char>) -> (tempo: SongTempo)
    ensures
        tempo_matches(tempo, tempo_text(xml@)),
{
    let xml_len = xml.len();
    let tempo_at = match find_text(xml, 0, "<Type>Tempo</Type>") {
        Some(p) => p,
        None => { return SongTempo::Unset; },
    };
    let value_at = match find_text(xml, tempo_at, "<Value>") {
        Some(p) => p,
        None => { return SongTempo::Unset; },
    };
    proof {
        reveal_strlit("<Value>");
    }
    let start = value_at + 7;
    let end = match find_text(xml, start, "</Value>") {
        Some(p) => p,
        None => { return SongTempo::Unset; },
    };
    let text = slice_chars(xml, start, end);
    let value = match find_text(&text, 0, " ") {
        Some(space) => slice_chars(&text, 0, space),
        None => text,
    };
    SongTempo::Written(chars_to_string(&value))
}

// ---------------------------------------------------------------------
// The score of one track

/// A beat's written duration: its rhythm's, or a plain quarter when the
/// rhythm is missing.
pub open spec fn duration_of(rhythms: Map<usize, NoteDuration>, id: usize) -> NoteDuration {
    if rhythms.contains_key(id) {
        rhythms[id]
    } else {
        NoteDuration { value: 0, dotted: false, tuplet_enters: 1, tuplet_times: 1 }
    }
}

/// The tab string of a note: strings count from 0 at the lowest, tab
/// strings from 1 at the highest; the byte arithmetic wraps.
pub open spec fn tab_string(string_count: u8, string: u8) -> u8 {
    if string_count >= string { (string_count - string) as u8 } else { (string_count - string + 256) as u8 }
}

/// The notes of a beat that exist, in the beat's order.
pub open spec fn notes_for(ids: Seq<usize>, notes: Map<usize, GpNote>, string_count: u8) -> Seq<TabNote>
    decreases ids.len(),
{
    if ids.len() == 0 {
        Seq::empty()
    } else {
        notes_for(ids.drop_last(), notes, string_count) + if notes.contains_key(ids.last()) {
            seq![TabNote { string: tab_string(string_count, notes[ids.last()].string), fret: notes[ids.last()].fret }]
        } else {
            Seq::empty()
        }
    }
}

/// A beat's duration, rest status (a beat without notes is a rest) and notes.
pub struct BeatContent {
    pub duration: NoteDuration,
    pub is_rest: bool,
    pub notes: Seq<TabNote>,
}

/// The beats of a voice that exist, in the voice's order.
pub open spec fn voice_contents(ids: Seq<usize>, beats: Map<usize, BeatRecord>, rhythms: Map<usize, NoteDuration>, notes: Map<usize, GpNote>, string_count: u8) -> Seq<BeatContent>
    decreases ids.len(),
{
    if ids.len() == 0 {
        Seq::empty()
    } else {
        voice_contents(ids.drop_last(), beats, rhythms, notes, string_count) + if beats.contains_key(ids.last()) {
            let beat = beats[ids.last()];
            let tab_notes = notes_for(beat.note_ids, notes, string_count);
            seq![BeatContent { duration: duration_of(rhythms, beat.rhythm_id), is_rest: beat.is_rest || tab_notes.len() == 0, notes: tab_notes }]
        } else {
            Seq::empty()
        }
    }
}

/// The beat ids a master bar plays for `track`: those of the first voice of
/// its bar for the track (bar 0 when it lists none); `None` when that bar
/// does not exist, and no beats when its first voice does not.
pub open spec fn master_bar_beats(master: MasterBarRecord, bars: Map<usize, Seq<usize>>, voices: Map<usize, Seq<usize>>, track: usize) -> Option<Seq<usize>> {
    let bar_id = if track < master.bar_ids.len() { master.bar_ids[track as int] } else { 0 };
    if !bars.contains_key(bar_id) {
        None
    } else {
        let voice_ids = bars[bar_id];
        Some(if voice_ids.len() > 0 && voices.contains_key(voice_ids[0]) { voices[voice_ids[0]] } else { Seq::empty() })
    }
}

pub open spec fn numbered(contents: Seq<BeatContent>, bar_index: int, first: int) -> Seq<ScoreBeatView> {
    Seq::new(contents.len(), |k: int| ScoreBeatView {
        bar_index: bar_index as usize,
        beat_index: (first + k) as usize,
        duration: contents[k].duration,
        is_rest: contents[k].is_rest,
        notes: contents[k].notes,
    })
}

/// The beats and bars of track `track`: for each master bar whose bar
/// exists, a bar holding the beats of its first voice, numbered on.
pub open spec fn score_of(
    masters: Seq<MasterBarRecord>,
    bars: Map<usize, Seq<usize>>,
    voices: Map<usize, Seq<usize>>,
    beats: Map<usize, BeatRecord>,
    rhythms: Map<usize, NoteDuration>,
    notes: Map<usize, GpNote>,
    track: usize,
    string_count: u8,
) -> (Seq<ScoreBeatView>, Seq<ScoreBar>)
    decreases masters.len(),
{
    if masters.len() == 0 {
        (Seq::empty(), Seq::empty())
    } else {
        let (before, before_bars) = score_of(masters.drop_last(), bars, voices, beats, rhythms, notes, track, string_count);
        let b = masters.len() - 1;
        match master_bar_beats(masters.last(), bars, voices, track) {
            None => (before, before_bars),
            Some(ids) => {
                let contents = voice_contents(ids, beats, rhythms, notes, string_count);
                (before + numbered(contents, b, before.len() as int), before_bars.push(ScoreBar {
                    index: b as usize,
                    first_beat_index: before.len() as usize,
                    beat_count: contents.len() as usize,
                    time_sig_num: masters.last().time_sig_num,
                    time_sig_denom: masters.last().time_sig_denom,
                }))
            },
        }
    }
}

/// The string count used for note strings: the track's, or 6.
pub open spec fn string_count_of(tracks: Seq<TrackView>, track: usize) -> u8 {
    if track < tracks.len() { tracks[track as int].string_count } else { 6 }
}

fn append_beat_notes(out: &mut Vec<TabNote>, ids: &Vec<usize>, notes: &HashMap<usize, GpNote>, string_count: u8)
    ensures
        final(out)@ == old(out)@ + notes_for(ids@, notes@, string_count),
{
    let mut i: usize = 0;
    while i < ids.len()
        invariant
            i <= ids@.len(),
            out@ == old(out)@ + notes_for(ids@.take(i as int), notes@, string_count),
        decreases ids@.len() - i,
    {
        assert(ids@.take(i + 1).drop_last() =~= ids@.take(i as int));
        let id = ids[i];
        match notes.get(&id) {
            Some(note) => {
                out.push(TabNote { string: string_count.wrapping_sub(note.string), fret: note.fret });
            },
            None => {},
        }
        i += 1;
        assert(out@ =~= old(out)@ + notes_for(ids@.take(i as int), notes@, string_count));
    }
    assert(ids@.take(i as int) =~= ids@);
}

/// Appends the beats of one voice, numbered on, to `out`.
fn append_voice_beats(
    out: &mut Vec<ScoreBeat>,
    ids: &Vec<usize>,
    beats: &HashMap<usize, GpBeat>,
    rhythms: &HashMap<usize, NoteDuration>,
    notes: &HashMap<usize, GpNote>,
    string_count: u8,
    bar_index: usize,
)
    ensures
        score_beats(final(out)@) == score_beats(old(out)@)
            + numbered(voice_contents(ids@, beat_map_view(beats@), rhythms@, notes@, string_count), bar_index as int, old(out)@.len() as int),
{
    let ghost first = old(out)@.len() as int;
    let mut i: usize = 0;
    while i < ids.len()
        invariant
            i <= ids@.len(),
            first == old(out)@.len(),
            score_beats(out@) == score_beats(old(out)@)
                + numbered(voice_contents(ids@.take(i as int), beat_map_view(beats@), rhythms@, notes@, string_count), bar_index as int, first),
        decreases ids@.len() - i,
    {
        assert(ids@.take(i + 1).drop_last() =~= ids@.take(i as int));
        let ghost before = voice_contents(ids@.take(i as int), beat_map_view(beats@), rhythms@, notes@, string_count);
        let id = ids[i];
        match beats.get(&id) {
            Some(beat) => {
                let duration = match rhythms.get(&beat.rhythm_id) {
                    Some(r) => *r,
                    None => NoteDuration { value: 0, dotted: false, tuplet_enters: 1, tuplet_times: 1 },
                };
                let mut tab_notes: Vec<TabNote> = Vec::new();
                append_beat_notes(&mut tab_notes, &beat.note_ids, notes, string_count);
                assert(tab_notes@ =~= notes_for(beat.note_ids@, notes@, string_count));
                let is_rest = beat.is_rest || tab_notes.len() == 0;
                let beat_index = out.len();
                let ghost content = BeatContent { duration, is_rest, notes: tab_notes@ };
                let ghost prev = score_beats(out@);
                let new_beat = ScoreBeat { bar_index, beat_index, duration, is_rest, notes: tab_notes };
                let ghost new_view = new_beat@;
                assert(prev.len() == out@.len());
                assert(numbered(before, bar_index as int, first).len() == before.len());
                assert(beat_index == first + before.len());
                out.push(new_beat);
                proof {
                    let after = voice_contents(ids@.take(i + 1), beat_map_view(beats@), rhythms@, notes@, string_count);
                    assert(after =~= before.push(content));
                    assert(score_beats(out@) =~= prev.push(new_view));
                    assert(numbered(after, bar_index as int, first) =~= numbered(before, bar_index as int, first).push(new_view));
                    assert(score_beats(out@) =~= score_beats(old(out)@) + numbered(after, bar_index as int, first));
                }
            },
            None => {
                proof {
                    let after = voice_contents(ids@.take(i + 1), beat_map_view(beats@), rhythms@, notes@, string_count);
                    assert(after =~= before);
                }
            },
        }
        i += 1;
    }
    assert(ids@.take(i as int) =~= ids@);
}

/// Builds the score of track `track_index`.
pub fn build_score(
    rhythms: &HashMap<usize, NoteDuration>,
    notes: &HashMap<usize, GpNote>,
    beats: &HashMap<usize, GpBeat>,
    voices: &HashMap<usize, Vec<usize>>,
    bars: &HashMap<usize, Vec<usize>>,
    masters: &Vec<GpMasterBar>,
    tracks: Vec<TrackInfo>,
    track_index: usize,
    tempo: SongTempo,
) -> (score: ScoreLayout)
    ensures
        ({
            let (expected_beats, expected_bars) = score_of(master_bars_view(masters@), id_map_view(bars@), id_map_view(voices@),
                beat_map_view(beats@), rhythms@, notes@, track_index, string_count_of(tracks_view(tracks@), track_index));
            &&& score_beats(score.beats@) == expected_beats
            &&& score.bars@ == expected_bars
        }),
        tracks_view(score.tracks@) == tracks_view(tracks@),
        score.tempo == tempo,
        score.title@ == Seq::<char>::empty(),
        score.artist@ == Seq::<char>::empty(),
{
    let string_count: u8 = if track_index < tracks.len() { tracks[track_index].string_count } else { 6 };
    let ghost masters_view = master_bars_view(masters@);
    let ghost bars_view = id_map_view(bars@);
    let ghost voices_view = id_map_view(voices@);
    let ghost beats_view = beat_map_view(beats@);
    let mut out_beats: Vec<ScoreBeat> = Vec::new();
    let mut out_bars: Vec<ScoreBar> = Vec::new();
    let mut b: usize = 0;
    assert(score_beats(out_beats@) =~= Seq::empty());
    while b < masters.len()
        invariant
            b <= masters@.len(),
            masters_view == master_bars_view(masters@),
            bars_view == id_map_view(bars@),
            voices_view == id_map_view(voices@),
            beats_view == beat_map_view(beats@),
            string_count == string_count_of(tracks_view(tracks@), track_index),
            ({
                let (eb, ebars) = score_of(masters_view.take(b as int), bars_view, voices_view, beats_view, rhythms@, notes@, track_index, string_count);
                score_beats(out_beats@) == eb && out_bars@ == ebars
            }),
        decreases masters@.len() - b,
    {
        assert(masters_view.take(b + 1).drop_last() =~= masters_view.take(b as int));
        assert(masters_view.take(b + 1).last() == masters@[b as int]@);
        let master = &masters[b];
        let bar_id: usize = if track_index < master.bar_ids.len() { master.bar_ids[track_index] } else { 0 };
        proof {
            assert(masters_view[b as int] == masters@[b as int]@);
            assert(masters_view[b as int].bar_ids == master.bar_ids@);
        }
        match bars.get(&bar_id) {
            None => {
                assert(!bars_view.contains_key(bar_id));
                assert(master_bar_beats(masters_view[b as int], bars_view, voices_view, track_index) is None);
            },
            Some(voice_ids) => {
                assert(bars_view.contains_key(bar_id) && bars_view[bar_id] == voice_ids@);
                let first_beat_index = out_beats.len();
                let ghost before = score_beats(out_beats@);
                let empty: Vec<usize> = Vec::new();
                let ids: &Vec<usize> = if voice_ids.len() > 0 {
                    match voices.get(&voice_ids[0]) {
                        Some(v) => v,
                        None => &empty,
                    }
                } else {
                    &empty
                };
                proof {
                    assert(master_bar_beats(masters@[b as int]@, bars_view, voices_view, track_index) == Some(ids@));
                }
                append_voice_beats(&mut out_beats, ids, beats, rhythms, notes, string_count, b);
                let ghost contents = voice_contents(ids@, beats_view, rhythms@, notes@, string_count);
                assert(numbered(contents, b as int, first_beat_index as int).len() == contents.len());
                assert(score_beats(out_beats@).len() == out_beats@.len());
                assert(out_beats@.len() == first_beat_index + contents.len());
                let beat_count = out_beats.len() - first_beat_index;
                out_bars.push(ScoreBar {
                    index: b,
                    first_beat_index,
                    beat_count,
                    time_sig_num: master.time_sig_num,
                    time_sig_denom: master.time_sig_denom,
                });
            },
        }
        b += 1;
    }
    assert(masters_view.take(b as int) =~= masters_view);
    ScoreLayout {
        beats: out_beats,
        bars: out_bars,
        tracks,
        title: String::new(),
        artist: String::new(),
        tempo,
    }
}

/// The score of a score document: for the chosen track, or else the
/// default one (the first not on the drum channel).
pub open spec fn gpif_score(xml: Seq<char>, score: ScoreLayout, track: usize) -> bool {
    let tracks = tracks_of(xml);
    let (beats, bars) = score_of(master_bars_of(xml), bars_of(xml), voices_of(xml), beats_of(xml), rhythms_of(xml), notes_of(xml),
        track, string_count_of(tracks, track));
    &&& score_beats(score.beats@) == beats
    &&& score.bars@ == bars
    &&& tracks_view(score.tracks@) == tracks
    &&& score.title@ == score_field(xml, "Title"@)
    &&& score.artist@ == score_field(xml, "Artist"@)
    &&& tempo_matches(score.tempo, tempo_text(xml))
}

/// Reads a score document (the text of `Content/score.gpif`) into the score
/// of track `override_track`, or of the default track, and that track's index.
pub fn parse_gpif(xml: &str, override_track: Option<usize>) -> (r: Result<(ScoreLayout, usize), Gp7Error>)
    ensures
        r is Ok,
        r->Ok_0.1 == (match override_track { Some(t) => t as nat, None => default_track(tracks_of(xml@)) }),
        gpif_score(xml@, r->Ok_0.0, r->Ok_0.1),
{
    let text = chars_of(xml);
    let title = extract_score_field(&text, "Title");
    let artist = extract_score_field(&text, "Artist");
    let tempo = extract_global_tempo(&text);
    let rhythms = extract_rhythms(&text);
    let notes = extract_notes(&text);
    let beats = extract_beats(&text);
    let voices = extract_voices(&text);
    let bars = extract_bars(&text);
    let masters = extract_master_bars(&text);
    let tracks = extract_tracks(&text);
    let default_track = match override_track {
        Some(t) => t,
        None => find_default_track(&tracks),
    };
    let mut score = build_score(&rhythms, &notes, &beats, &voices, &bars, &masters, tracks, default_track, tempo);
    score.title = title;
    score.artist = artist;
    Ok((score, default_track))
}

/// Why an entry of a zip archive could not be read, with the zip crate's
/// own description of the failure.
pub enum ArchiveFailure {
    /// The bytes are not a zip archive the crate can open.
    NotArchive(String),
    /// The archive has no entry of that name.
    MissingEntry(String),
    /// The entry could not be decompressed, or is not UTF-8 text.
    Unreadable(String),
}

/// The text of the entry `name` of the zip archive `data`, or `None` where
/// the archive cannot be opened, lacks that entry, or the entry cannot be
/// read as UTF-8 text.
pub uninterp spec fn archive_entry_text(data: Seq<u8>, name: Seq<char>) -> Option<Seq<char>>;

/// Reads the entry `name` of the zip archive held in `data` as text, through
/// `zip::ZipArchive::new` over an in-memory cursor, `ZipArchive::by_name`
/// and `Read::read_to_string` on the entry. The contract claims that the
/// outcome depends on the bytes and the name alone; which failure comes, and
/// the zip crate's description of it, are left unsaid.
#[verifier::external_body]
fn read_archive_entry(data: &Vec<u8>, name: &str) -> (result: Result<String, ArchiveFailure>)
    ensures
        match result {
            Ok(text) => archive_entry_text(data@, name@) == Some(text@),
            Err(_) => archive_entry_text(data@, name@) is None,
        },
{
    let mut archive = match zip::ZipArchive::new(std::io::Cursor::new(data.as_slice())) {
        Ok(archive) => archive,
        Err(error) => return Err(ArchiveFailure::NotArchive(error.to_string())),
    };
    let mut entry = match archive.by_name(name) {
        Ok(entry) => entry,
        Err(error) => return Err(ArchiveFailure::MissingEntry(error.to_string())),
    };
    let mut content = String::new();
    match entry.read_to_string(&mut content) {
        Ok(_) => Ok(content),
        Err(error) => Err(ArchiveFailure::Unreadable(error.to_string())),
    }
}

/// Name of the score document inside a Guitar Pro 7/8 archive.
pub open spec fn score_entry() -> Seq<char> {
    "Content/score.gpif"@
}

/// The score document (`Content/score.gpif`) of a Guitar Pro 7/8 archive:
/// an archive that cannot be opened or lacks the document is a zip error,
/// a document that cannot be read is an I/O error.
pub fn read_gpif_xml(data: &Vec<u8>) -> (r: Result<String, Gp7Error>)
    ensures
        match archive_entry_text(data@, score_entry()) {
            Some(text) => r is Ok && r->Ok_0@ == text,
            None => r is Err,
        },
        r matches Err(error) ==> (error is Zip || error is Io),
{
    match read_archive_entry(data, "Content/score.gpif") {
        Ok(text) => Ok(text),
        Err(ArchiveFailure::NotArchive(message)) => Err(Gp7Error::Zip(message)),
        Err(ArchiveFailure::MissingEntry(message)) => {
            let mut text = String::new();
            push_text(&mut text, "score.gpif not found: ");
            push_text(&mut text, message.as_str());
            Err(Gp7Error::Zip(text))
        },
        Err(ArchiveFailure::Unreadable(message)) => Err(Gp7Error::Io(message)),
    }
}

/// The score of the default track of a Guitar Pro 7/8 archive (the first
/// track not on the drum channel), and that track's index.
pub fn parse_file(data: &Vec<u8>) -> (r: Result<(ScoreLayout, usize), Gp7Error>)
    ensures
        match archive_entry_text(data@, score_entry()) {
            Some(xml) => {
                &&& r is Ok
                &&& r->Ok_0.1 == default_track(tracks_of(xml))
                &&& gpif_score(xml, r->Ok_0.0, r->Ok_0.1)
            },
            None => r is Err,
        },
{
    let xml = read_gpif_xml(data)?;
    parse_gpif(xml.as_str(), None)
}

/// The score of track `track_index` of a Guitar Pro 7/8 archive, and that
/// index.
pub fn parse_file_for_track(data: &Vec<u8>, track_index: usize) -> (r: Result<(ScoreLayout, usize), Gp7Error>)
    ensures
        match archive_entry_text(data@, score_entry()) {
            Some(xml) => {
                &&& r is Ok
                &&& r->Ok_0.1 == track_index
                &&& gpif_score(xml, r->Ok_0.0, track_index)
            },
            None => r is Err,
        },
{
    let xml = read_gpif_xml(data)?;
    parse_gpif(xml.as_str(), Some(track_index))
}

} // verus!
