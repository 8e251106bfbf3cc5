//! Turning a parsed Guitar Pro 5 file into the score of one track, and the
//! entry points that parse a whole file.
use vstd::prelude::*;
use crate::gp5_format as layout;
use crate::gp5_format::{GpVersion, Gp5Failure, MeasureHeader, ParsedBeatView, Gp5Song, default_track, default_track_from};
use crate::gp5_parser::{Reader, Gp5Error, failure_of, read_version, read_song_attributes, read_measure_headers, read_tracks, tracks_view, count_from};
use crate::gp5_beats::{ParsedBeat, read_all_beats, beats_view, bar_view, all_beats_view};
use crate::tab_models::{TabNote, TrackInfo, TrackView, ScoreBeat, ScoreBeatView, ScoreBar, ScoreLayout, SongTempo, layout_consistent};
use crate::text::{push_text, push_decimal};

verus! {

/// A beat of the score carries what the parser read: the notes, the
/// duration, and rest status (a beat without notes is a rest too).
pub open spec fn beat_matches(beat: ScoreBeatView, parsed: ParsedBeatView) -> bool {
    &&& beat.notes == parsed.notes
    &&& beat.duration == parsed.duration
    &&& beat.is_rest == (parsed.is_rest || parsed.notes.len() == 0)
}

pub open spec fn score_beats(beats: Seq<ScoreBeat>) -> Seq<ScoreBeatView> {
    beats.map_values(|beat: ScoreBeat| beat@)
}

/// The score of track `track`: one bar per measure header with its time
/// signature, holding that track's beats of the bar in order.
pub open spec fn score_matches(
    beats: Seq<ScoreBeatView>,
    bars: Seq<ScoreBar>,
    measures: Seq<MeasureHeader>,
    all: Seq<Seq<Seq<ParsedBeatView>>>,
    track: int,
) -> bool {
    &&& bars.len() == measures.len()
    &&& layout_consistent(beats, bars)
    &&& forall|b: int| 0 <= b < bars.len() ==> {
        &&& (#[trigger] bars[b]).time_sig_num == measures[b].time_sig_num
        &&& bars[b].time_sig_denom == measures[b].time_sig_denom
        &&& bars[b].beat_count == all[b][track].len()
    }
    &&& forall|b: int, k: int| 0 <= b < bars.len() && 0 <= k < all[b][track].len()
        ==> beat_matches(beats[#[trigger] bars[b].first_beat_index + k], #[trigger] all[b][track][k])
}

/// The score built from a whole song for `track`: every track's description,
/// the song's tempo, no title or artist.
pub open spec fn song_score(score: ScoreLayout, song: Gp5Song, track: int) -> bool {
    &&& score_matches(score_beats(score.beats@), score.bars@, song.measure_headers, song.beats, track)
    &&& score.tempo == SongTempo::Bpm(song.header.tempo)
    &&& tracks_view(score.tracks@) == song.tracks
    &&& score.title@ == Seq::<char>::empty()
    &&& score.artist@ == Seq::<char>::empty()
}

/// The first track not on the drum channel (9), else the first.
pub fn find_default_track(tracks: &Vec<TrackInfo>) -> (index: usize)
    ensures
        index == default_track(tracks_view(tracks@)),
{
    let ghost view = tracks_view(tracks@);
    let mut i: usize = 0;
    while i < tracks.len()
        invariant
            i <= tracks@.len(),
            view == tracks_view(tracks@),
            default_track(view) == default_track_from(view, i as int),
        decreases tracks@.len() - i,
    {
        if tracks[i].midi_channel != 9 {
            return i;
        }
        i += 1;
    }
    0
}

fn copy_notes(notes: &Vec<TabNote>) -> (copy: Vec<TabNote>)
    ensures
        copy@ == notes@,
{
    let mut copy: Vec<TabNote> = Vec::new();
    let mut i: usize = 0;
    while i < notes.len()
        invariant
            i <= notes@.len(),
            copy@ == notes@.take(i as int),
        decreases notes@.len() - i,
    {
        copy.push(notes[i]);
        i += 1;
        assert(copy@ =~= notes@.take(i as int));
    }
    assert(notes@.take(i as int) =~= notes@);
    copy
}

/// Appends the beats of one bar, numbering them on from the beats before.
fn append_bar_beats(beats: &mut Vec<ScoreBeat>, parsed: &Vec<ParsedBeat>, bar_index: usize)
    ensures
        final(beats)@.len() == old(beats)@.len() + parsed@.len(),
        forall|i: int| 0 <= i < old(beats)@.len() ==> (#[trigger] final(beats)@[i])@ == old(beats)@[i]@,
        forall|k: int| 0 <= k < parsed@.len() ==> {
            let beat = (#[trigger] final(beats)@[old(beats)@.len() + k])@;
            &&& beat_matches(beat, parsed@[k]@)
            &&& beat.bar_index == bar_index
            &&& beat.beat_index == old(beats)@.len() + k
        },
{
    let start = beats.len();
    let mut k: usize = 0;
    while k < parsed.len()
        invariant
            k <= parsed@.len(),
            start == old(beats)@.len(),
            beats@.len() == start + k,
            forall|i: int| 0 <= i < start ==> (#[trigger] beats@[i])@ == old(beats)@[i]@,
            forall|j: int| 0 <= j < k ==> {
                let beat = (#[trigger] beats@[start + j])@;
                &&& beat_matches(beat, parsed@[j]@)
                &&& beat.bar_index == bar_index
                &&& beat.beat_index == start + j
            },
        decreases parsed@.len() - k,
    {
        let source = &parsed[k];
        let notes = copy_notes(&source.notes);
        let is_rest = source.is_rest || source.notes.len() == 0;
        let beat_index = beats.len();
        beats.push(ScoreBeat {
            bar_index,
            beat_index,
            duration: source.duration,
            is_rest,
            notes,
        });
        k += 1;
    }
}

/// Builds the score of track `track_index` from the parsed sections.
pub fn build_tab_score(
    measures: &Vec<MeasureHeader>,
    tracks: Vec<TrackInfo>,
    all: &Vec<Vec<Vec<ParsedBeat>>>,
    track_index: usize,
    tempo: i32,
) -> (score: ScoreLayout)
    requires
        measures@.len() <= all@.len(),
        forall|b: int| 0 <= b < measures@.len() ==> track_index < (#[trigger] all@[b])@.len(),
    ensures
        score_matches(score_beats(score.beats@), score.bars@, measures@, all_beats_view(all@), track_index as int),
        tracks_view(score.tracks@) == tracks_view(tracks@),
        score.title@ == Seq::<char>::empty(),
        score.artist@ == Seq::<char>::empty(),
        score.tempo == SongTempo::Bpm(tempo),
{
    let ghost all_view = all_beats_view(all@);
    let mut beats: Vec<ScoreBeat> = Vec::new();
    let mut bars: Vec<ScoreBar> = Vec::new();
    let mut bar_index: usize = 0;
    while bar_index < measures.len()
        invariant
            bar_index <= measures@.len(),
            measures@.len() <= all@.len(),
            forall|b: int| 0 <= b < measures@.len() ==> track_index < (#[trigger] all@[b])@.len(),
            all_view == all_beats_view(all@),
            bars@.len() == bar_index,
            layout_consistent(score_beats(beats@), bars@),
            forall|b: int| 0 <= b < bar_index ==> {
                &&& (#[trigger] bars@[b]).time_sig_num == measures@[b].time_sig_num
                &&& bars@[b].time_sig_denom == measures@[b].time_sig_denom
                &&& bars@[b].beat_count == all_view[b][track_index as int].len()
            },
            forall|b: int, k: int| 0 <= b < bar_index && 0 <= k < all_view[b][track_index as int].len()
                ==> beat_matches(score_beats(beats@)[#[trigger] bars@[b].first_beat_index + k], #[trigger] all_view[b][track_index as int][k]),
        decreases measures@.len() - bar_index,
    {
        let ghost old_beats = score_beats(beats@);
        let ghost old_bars = bars@;
        let parsed = &all[bar_index][track_index];
        let first_beat_index = beats.len();
        append_bar_beats(&mut beats, parsed, bar_index);
        let header = measures[bar_index];
        bars.push(ScoreBar {
            index: bar_index,
            first_beat_index,
            beat_count: parsed.len(),
            time_sig_num: header.time_sig_num,
            time_sig_denom: header.time_sig_denom,
        });
        proof {
            let nb = score_beats(beats@);
            let b = bar_index as int;
            assert(all_view[b] == bar_view(all@[b]@));
            assert(all_view[b][track_index as int] == beats_view(parsed@));
            assert forall|i: int| 0 <= i < old_beats.len() implies nb[i] == old_beats[i] by {}
            assert forall|k: int| 0 <= k < parsed@.len() implies {
                &&& beat_matches(nb[first_beat_index + k], all_view[b][track_index as int][k])
                &&& nb[first_beat_index + k].bar_index == b
                &&& nb[first_beat_index + k].beat_index == first_beat_index + k
            } by {
                assert(beats@[first_beat_index + k]@ == nb[first_beat_index + k]);
            }
            assert forall|c: int, k: int| 0 <= c < bar_index + 1 && 0 <= k < all_view[c][track_index as int].len()
                implies beat_matches(nb[#[trigger] bars@[c].first_beat_index + k], #[trigger] all_view[c][track_index as int][k]) by {
                if c < b {
                    assert(bars@[c] == old_bars[c]);
                    assert(old_bars[c].first_beat_index + k < old_beats.len());
                }
            }
            assert forall|i: int| 0 <= i < nb.len() implies {
                let bar = #[trigger] nb[i].bar_index;
                &&& bar < bars@.len()
                &&& bars@[bar as int].first_beat_index <= i < bars@[bar as int].first_beat_index + bars@[bar as int].beat_count
            } by {
                if i < old_beats.len() {
                    assert(nb[i] == old_beats[i]);
                    assert(bars@[old_beats[i].bar_index as int] == old_bars[old_beats[i].bar_index as int]);
                } else {
                    let k = i - first_beat_index;
                    assert(nb[first_beat_index + k].bar_index == b);
                }
            }
            assert forall|i: int| 0 <= i < nb.len() implies (#[trigger] nb[i]).beat_index == i by {
                if i >= old_beats.len() {
                    let k = i - first_beat_index;
                    assert(nb[first_beat_index + k].beat_index == first_beat_index + k);
                }
            }
            assert forall|c: int| 0 <= c < bars@.len() - 1 implies
                (#[trigger] bars@[c]).first_beat_index + bars@[c].beat_count == bars@[c + 1].first_beat_index by {
                if c < b - 1 {
                    assert(bars@[c] == old_bars[c]);
                    assert(bars@[c + 1] == old_bars[c + 1]);
                }
            }
            assert(layout_consistent(nb, bars@));
        }
        bar_index += 1;
    }
    ScoreLayout { beats, bars, tracks, title: String::new(), artist: String::new(), tempo: SongTempo::Bpm(tempo) }
}

/// The message for a track choice past the last track.
fn track_out_of_range(track: usize, count: u64) -> (message: String)
    ensures
        message@ == layout::track_out_of_range_message(track as nat, count as nat),
{
    let mut message = "Track index ".to_owned();
    push_decimal(&mut message, track as u64);
    push_text(&mut message, " out of range (");
    push_decimal(&mut message, count);
    push_text(&mut message, ")");
    message
}

/// Parses a whole file; builds the score of the chosen track, or of the
/// default one.
fn parse_song(data: Vec<u8>, choice: Option<usize>) -> (r: Result<(ScoreLayout, usize), Gp5Error>)
    requires
        data@.len() <= layout::max_position(),
    ensures
        match layout::read_song(data@, match choice { Some(t) => Some(t as nat), None => None }) {
            Ok(song) => r is Ok && song_score(r->Ok_0.0, song, r->Ok_0.1 as int)
                && r->Ok_0.1 == (match choice { Some(t) => t as nat, None => default_track(song.tracks) }),
            Err(f) => r is Err && failure_of(r->Err_0) == f,
        },
{
    let ghost d = data@;
    let mut reader = Reader::new(data);
    let version = read_version(&mut reader)?;
    reader.set_version(version);
    read_song_attributes(&mut reader)?;
    let tempo = reader.read_int()?;
    if version == GpVersion::Gp510 {
        reader.skip(1)?;
    }
    reader.skip(1)?;
    reader.skip(4)?;
    reader.skip_many(12, 64)?;
    reader.skip(38)?;
    reader.read_int()?;
    let bars = reader.read_int()?;
    let tracks = reader.read_int()?;
    let bar_count = count_from(bars);
    let track_count = count_from(tracks);
    if bar_count == 0 || track_count == 0 {
        return Err(Gp5Error::InvalidFormat("No bars or tracks in file".to_owned()));
    }
    if let Some(t) = choice {
        if t as u64 >= track_count {
            return Err(Gp5Error::InvalidFormat(track_out_of_range(t, track_count)));
        }
    }
    let measures = read_measure_headers(&mut reader, bar_count, tempo)?;
    let track_list = read_tracks(&mut reader, track_count)?;
    reader.skip(1)?;
    let all = read_all_beats(&mut reader, bar_count, track_count)?;
    let track = match choice {
        Some(t) => t,
        None => find_default_track(&track_list),
    };
    proof {
        if choice is None {
            lemma_default_track_in_range(tracks_view(track_list@));
        }
    }
    let score = build_tab_score(&measures, track_list, &all, track, tempo);
    Ok((score, track))
}

proof fn lemma_default_track_in_range(tracks: Seq<TrackView>)
    requires
        tracks.len() > 0,
    ensures
        default_track(tracks) < tracks.len(),
{
    lemma_default_track_from_bound(tracks, 0);
}

proof fn lemma_default_track_from_bound(tracks: Seq<TrackView>, from: int)
    requires
        tracks.len() > 0,
    ensures
        default_track_from(tracks, from) < tracks.len(),
    decreases tracks.len() - from,
{
    if 0 <= from < tracks.len() && tracks[from].midi_channel == 9 {
        lemma_default_track_from_bound(tracks, from + 1);
    }
}

/// Parses a Guitar Pro 5 file. Gives the score of the default track (the
/// first that is not on the drum channel) and that track's index.
pub fn parse(data: Vec<u8>) -> (r: Result<(ScoreLayout, usize), Gp5Error>)
    requires
        data@.len() <= layout::max_position(),
    ensures
        match layout::read_song(data@, None) {
            Ok(song) => r is Ok && r->Ok_0.1 == default_track(song.tracks) && song_score(r->Ok_0.0, song, r->Ok_0.1 as int),
            Err(f) => r is Err && failure_of(r->Err_0) == f,
        },
{
    parse_song(data, None)
}

/// Parses a Guitar Pro 5 file and gives the score of track `track_index`;
/// a track past the last is refused.
pub fn parse_for_track(data: Vec<u8>, track_index: usize) -> (r: Result<ScoreLayout, Gp5Error>)
    requires
        data@.len() <= layout::max_position(),
    ensures
        match layout::read_song(data@, Some(track_index as nat)) {
            Ok(song) => r is Ok && song_score(r->Ok_0, song, track_index as int),
            Err(f) => r is Err && failure_of(r->Err_0) == f,
        },
{
    match parse_song(data, Some(track_index)) {
        Ok((score, _)) => Ok(score),
        Err(e) => Err(e),
    }
}

proof fn lemma_read_tracks_count(d: Seq<u8>, p: int, v: layout::GpVersion, index: nat, count: nat, done: Seq<TrackView>)
    requires
        done.len() == index,
        index <= count,
    ensures
        layout::read_tracks_from(d, p, v, index, count, done) matches Ok((tracks, _)) ==> tracks.len() == count,
    decreases count - index,
{
    if index < count {
        if let Ok((track, q)) = layout::read_track(d, p, v, index) {
            lemma_read_tracks_count(d, q, v, index + 1, count, done.push(track));
        }
    }
}

proof fn lemma_default_track_below(tracks: Seq<TrackView>, from: int)
    requires
        0 <= from,
        tracks.len() > 0,
    ensures
        layout::default_track_from(tracks, from) < tracks.len(),
    decreases tracks.len() - from,
{
    if from < tracks.len() && tracks[from].midi_channel == 9 {
        lemma_default_track_below(tracks, from + 1);
    }
}

/// Choosing a track reads the same song: where a file reads without a
/// choice of track, choosing one of its tracks reads the same song, and
/// choosing a track past the last is refused as an invalid format. The
/// default track is always one of the song's tracks, so the score of the
/// chosen default track is the score read without a choice.
pub proof fn lemma_track_choice_reads_same_song(d: Seq<u8>, track: nat)
    ensures
        layout::read_song(d, None) matches Ok(song) ==> {
            &&& default_track(song.tracks) < song.header.track_count
            &&& layout::read_song(d, Some(track)) == (if track < song.header.track_count {
                    Ok(song)
                } else {
                    Err(layout::Gp5Failure::InvalidFormat(layout::track_out_of_range_message(track, song.header.track_count)))
                })
        },
{
    if let Ok(song) = layout::read_song(d, None) {
        let (header, p1) = layout::read_header(d)->Ok_0;
        let (measures, p2) = layout::read_measure_headers(d, p1, header.bar_count, header.tempo)->Ok_0;
        lemma_read_tracks_count(d, p2, header.version, 0, header.track_count, Seq::empty());
        lemma_default_track_below(song.tracks, 0);
    }
}

} // verus!
