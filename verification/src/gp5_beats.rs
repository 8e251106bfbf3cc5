//! Guitar Pro 5 beat data: the records of bends, chords, effects, notes and
//! mix-table changes inside each beat, read past except for the notes and
//! the duration the player needs.
use vstd::prelude::*;
use crate::gp5_format as layout;
use crate::gp5_format::{GpVersion, ParsedBeatView};
use crate::gp5_parser::{Reader, Gp5Error, reads, failure_of, advanced, read_bytes, read_ints, read_strings, count_from};
use crate::tab_models::{TabNote, NoteDuration};

verus! {

/// Skip a bend: type and value, a point count, 9 bytes per point.
pub fn read_bend(reader: &mut Reader) -> (r: Result<(), Gp5Error>)
    requires
        old(reader).wf(),
    ensures
        advanced(*final(reader), *old(reader)),
        reads(r, layout::read_bend(old(reader).bytes(), old(reader).position()), final(reader).position()),
{
    reader.skip(5)?;
    let point_count = reader.read_int()?;
    reader.skip_many(9, count_from(point_count))
}

/// Skip a chord diagram.
pub fn read_chord(reader: &mut Reader) -> (r: Result<(), Gp5Error>)
    requires
        old(reader).wf(),
    ensures
        advanced(*final(reader), *old(reader)),
        reads(r, layout::read_chord(old(reader).bytes(), old(reader).position()), final(reader).position()),
{
    reader.skip(17)?;
    reader.read_byte_size_string(21)?;
    reader.skip(4)?;
    reader.read_int()?;
    read_ints(reader, 7)?;
    reader.skip(32)
}

/// Skip beat effects: slap, tremolo bar, stroke and pick stroke.
pub fn read_beat_effects(reader: &mut Reader) -> (r: Result<(), Gp5Error>)
    requires
        old(reader).wf(),
    ensures
        advanced(*final(reader), *old(reader)),
        reads(r, layout::read_beat_effects(old(reader).bytes(), old(reader).position()), final(reader).position()),
{
    let flags1 = reader.read_byte()?;
    let flags2 = reader.read_byte()?;
    if flags1 & 0x20 != 0 {
        read_bytes(reader, 1)?;
    }
    if flags2 & 0x04 != 0 {
        read_bend(reader)?;
    }
    if flags1 & 0x40 != 0 {
        read_bytes(reader, 2)?;
    }
    if flags2 & 0x02 != 0 {
        read_bytes(reader, 1)?;
    }
    Ok(())
}

/// Skip the data of a harmonic.
fn read_harmonic(reader: &mut Reader) -> (r: Result<(), Gp5Error>)
    requires
        old(reader).wf(),
    ensures
        advanced(*final(reader), *old(reader)),
        reads(r, layout::read_harmonic(old(reader).bytes(), old(reader).position()), final(reader).position()),
{
    let kind = reader.read_byte()?;
    if kind == 2 {
        reader.skip(3)?;
    } else if kind == 3 {
        read_bytes(reader, 1)?;
    }
    Ok(())
}

/// Skip a grace note: 4 bytes, and a flags byte in 5.10.
fn read_grace_note(reader: &mut Reader) -> (r: Result<(), Gp5Error>)
    requires
        old(reader).wf(),
    ensures
        advanced(*final(reader), *old(reader)),
        reads(r, layout::read_grace_note(old(reader).bytes(), old(reader).position(), old(reader).gp_version()), final(reader).position()),
{
    reader.skip(4)?;
    if reader.version() == GpVersion::Gp510 {
        read_bytes(reader, 1)?;
    }
    Ok(())
}

/// Skip note effects: bend, grace note, tremolo picking, slide, harmonic, trill.
pub fn read_note_effects(reader: &mut Reader) -> (r: Result<(), Gp5Error>)
    requires
        old(reader).wf(),
    ensures
        advanced(*final(reader), *old(reader)),
        reads(r, layout::read_note_effects(old(reader).bytes(), old(reader).position(), old(reader).gp_version()), final(reader).position()),
{
    let flags1 = reader.read_byte()?;
    let flags2 = reader.read_byte()?;
    if flags1 & 0x01 != 0 {
        read_bend(reader)?;
    }
    if flags1 & 0x10 != 0 {
        read_grace_note(reader)?;
    }
    if flags2 & 0x04 != 0 {
        read_bytes(reader, 1)?;
    }
    if flags2 & 0x08 != 0 {
        read_bytes(reader, 1)?;
    }
    if flags2 & 0x10 != 0 {
        read_harmonic(reader)?;
    }
    if flags2 & 0x20 != 0 {
        read_bytes(reader, 2)?;
    }
    Ok(())
}

/// Read one note on string `string_number` (1 = highest); `None` for a
/// negative fret.
pub fn read_note(reader: &mut Reader, string_number: u8) -> (r: Result<Option<TabNote>, Gp5Error>)
    requires
        old(reader).wf(),
    ensures
        advanced(*final(reader), *old(reader)),
        match layout::read_note(old(reader).bytes(), old(reader).position(), old(reader).gp_version(), string_number) {
            Ok((note, p)) => r == Ok::<Option<TabNote>, Gp5Error>(note) && final(reader).position() == p,
            Err(f) => r is Err && failure_of(r->Err_0) == f,
        },
{
    let flags = reader.read_byte()?;
    if flags & 0x20 != 0 {
        read_bytes(reader, 1)?;
    }
    if flags & 0x10 != 0 {
        read_bytes(reader, 1)?;
    }
    let fret: i8 = if flags & 0x20 != 0 { reader.read_signed_byte()? } else { 0 };
    if flags & 0x80 != 0 {
        reader.skip(2)?;
    }
    if flags & 0x01 != 0 {
        reader.skip(8)?;
    }
    reader.skip(1)?;
    if flags & 0x08 != 0 {
        read_note_effects(reader)?;
    }
    if fret >= 0 {
        Ok(Some(TabNote { string: string_number, fret: fret as u8 }))
    } else {
        Ok(None)
    }
}

/// The notes named by a string mask, bits 6 down to 0 (highest string first).
pub fn read_notes(reader: &mut Reader, mask: u8) -> (r: Result<Vec<TabNote>, Gp5Error>)
    requires
        old(reader).wf(),
    ensures
        advanced(*final(reader), *old(reader)),
        reads(r, layout::read_notes_from(old(reader).bytes(), old(reader).position(), old(reader).gp_version(), mask, 7, Seq::empty()), final(reader).position()),
{
    let ghost bytes = reader.bytes();
    let ghost version = reader.gp_version();
    let mut notes: Vec<TabNote> = Vec::new();
    let mut remaining: u8 = 7;
    while remaining > 0
        invariant
            reader.wf(),
            reader.bytes() == bytes,
            bytes == old(reader).bytes(),
            reader.gp_version() == version,
            version == old(reader).gp_version(),
            remaining <= 7,
            layout::read_notes_from(bytes, old(reader).position(), version, mask, 7, Seq::empty())
                == layout::read_notes_from(bytes, reader.position(), version, mask, remaining as nat, notes@),
        decreases remaining,
    {
        let bit: u8 = remaining - 1;
        if mask & (1u8 << bit) != 0 {
            let note = read_note(reader, 7 - bit)?;
            if let Some(tab_note) = note {
                notes.push(tab_note);
            }
        }
        remaining = bit;
    }
    Ok(notes)
}

/// The "times" of a tuplet of `enters` notes.
fn tuplet_times(enters: i32) -> (times: u8)
    ensures
        times == layout::tuplet_times(enters),
{
    if enters == 3 || enters == 6 {
        2
    } else if enters == 5 || enters == 7 || enters == 9 || enters == 10 {
        4
    } else if enters == 11 || enters == 12 || enters == 13 {
        8
    } else {
        1
    }
}

/// The six mix values: volume, balance, chorus, reverb, phaser, tremolo.
fn read_mix_values(reader: &mut Reader) -> (r: Result<Vec<i8>, Gp5Error>)
    requires
        old(reader).wf(),
    ensures
        advanced(*final(reader), *old(reader)),
        reads(r, layout::read_mix_values(old(reader).bytes(), old(reader).position(), 6, Seq::empty()), final(reader).position()),
        r is Ok ==> r->Ok_0@.len() == 6,
{
    let ghost bytes = reader.bytes();
    let mut values: Vec<i8> = Vec::new();
    let mut i: u8 = 0;
    while i < 6
        invariant
            reader.wf(),
            reader.bytes() == bytes,
            bytes == old(reader).bytes(),
            reader.gp_version() == old(reader).gp_version(),
            i <= 6,
            values@.len() == i,
            layout::read_mix_values(bytes, old(reader).position(), 6, Seq::empty())
                == layout::read_mix_values(bytes, reader.position(), (6 - i) as nat, values@),
        decreases 6 - i,
    {
        let value = reader.read_signed_byte()?;
        values.push(value);
        i += 1;
    }
    Ok(values)
}

/// The transition byte of each mix value that is set.
fn read_transitions(reader: &mut Reader, values: &Vec<i8>) -> (r: Result<(), Gp5Error>)
    requires
        old(reader).wf(),
    ensures
        advanced(*final(reader), *old(reader)),
        reads(r, layout::read_transitions(old(reader).bytes(), old(reader).position(), values@), final(reader).position()),
{
    let ghost bytes = reader.bytes();
    let mut k: usize = 0;
    assert(values@.subrange(0, values@.len() as int) =~= values@);
    while k < values.len()
        invariant
            reader.wf(),
            reader.bytes() == bytes,
            bytes == old(reader).bytes(),
            reader.gp_version() == old(reader).gp_version(),
            k <= values@.len(),
            layout::read_transitions(bytes, old(reader).position(), values@)
                == layout::read_transitions(bytes, reader.position(), values@.subrange(k as int, values@.len() as int)),
        decreases values@.len() - k,
    {
        assert(values@.subrange(k as int, values@.len() as int).drop_first() =~= values@.subrange(k + 1, values@.len() as int));
        if values[k] >= 0 {
            read_bytes(reader, 1)?;
        }
        k += 1;
    }
    Ok(())
}

/// Skip a mix-table change; a transition byte follows each value that is
/// set, and the tempo's (two bytes in 5.10).
pub fn read_mix_table_change(reader: &mut Reader) -> (r: Result<(), Gp5Error>)
    requires
        old(reader).wf(),
    ensures
        advanced(*final(reader), *old(reader)),
        reads(r, layout::read_mix_table_change(old(reader).bytes(), old(reader).position(), old(reader).gp_version()), final(reader).position()),
{
    reader.read_byte()?;
    reader.skip(16)?;
    let values = read_mix_values(reader)?;
    reader.read_int_byte_size_string()?;
    let tempo = reader.read_int()?;
    read_transitions(reader, &values)?;
    if tempo >= 0 {
        if reader.version() == GpVersion::Gp510 {
            read_bytes(reader, 2)?;
        } else {
            read_bytes(reader, 1)?;
        }
    }
    read_bytes(reader, 1)?;
    reader.skip(1)?;
    if reader.version() == GpVersion::Gp510 {
        read_strings(reader, 2)?;
    }
    Ok(())
}

/// One beat as the parser keeps it: its notes, written duration and rest status.
pub struct ParsedBeat {
    pub notes: Vec<TabNote>,
    pub duration: NoteDuration,
    pub is_rest: bool,
}

impl View for ParsedBeat {
    type V = ParsedBeatView;

    open spec fn view(&self) -> ParsedBeatView {
        ParsedBeatView { notes: self.notes@, duration: self.duration, is_rest: self.is_rest }
    }
}

/// The part of a beat from its chord diagram to its display flags.
fn read_beat_tail(reader: &mut Reader, flags: u8) -> (r: Result<Vec<TabNote>, Gp5Error>)
    requires
        old(reader).wf(),
    ensures
        advanced(*final(reader), *old(reader)),
        reads(r, layout::read_beat_tail(old(reader).bytes(), old(reader).position(), old(reader).gp_version(), flags), final(reader).position()),
{
    if flags & 0x02 != 0 {
        read_chord(reader)?;
    }
    if flags & 0x04 != 0 {
        reader.read_int_byte_size_string()?;
    }
    if flags & 0x08 != 0 {
        read_beat_effects(reader)?;
    }
    if flags & 0x10 != 0 {
        read_mix_table_change(reader)?;
    }
    let mask = reader.read_byte()?;
    let notes = read_notes(reader, mask)?;
    let display = reader.read_short()?;
    if display & 0x0800 != 0 {
        read_bytes(reader, 1)?;
    }
    Ok(notes)
}

/// Read one beat record.
pub fn read_beat(reader: &mut Reader) -> (r: Result<ParsedBeat, Gp5Error>)
    requires
        old(reader).wf(),
    ensures
        advanced(*final(reader), *old(reader)),
        reads(r, layout::read_beat(old(reader).bytes(), old(reader).position(), old(reader).gp_version()), final(reader).position()),
{
    let flags = reader.read_byte()?;
    let status: u8 = if flags & 0x40 != 0 { reader.read_byte()? } else { 0 };
    let value = reader.read_signed_byte()?;
    let enters: i32 = if flags & 0x20 != 0 { reader.read_int()? } else { 1 };
    let notes = read_beat_tail(reader, flags)?;
    let tuplet = flags & 0x20 != 0;
    Ok(ParsedBeat {
        notes,
        duration: NoteDuration {
            value,
            dotted: flags & 0x01 != 0,
            tuplet_enters: if tuplet { enters as u8 } else { 1 },
            tuplet_times: if tuplet { tuplet_times(enters) } else { 1 },
        },
        is_rest: flags & 0x40 != 0 && status == 2,
    })
}

pub open spec fn beats_view(beats: Seq<ParsedBeat>) -> Seq<ParsedBeatView> {
    beats.map_values(|beat: ParsedBeat| beat@)
}

pub open spec fn bar_view(bar: Seq<Vec<ParsedBeat>>) -> Seq<Seq<ParsedBeatView>> {
    bar.map_values(|beats: Vec<ParsedBeat>| beats_view(beats@))
}

pub open spec fn all_beats_view(all: Seq<Vec<Vec<ParsedBeat>>>) -> Seq<Seq<Seq<ParsedBeatView>>> {
    all.map_values(|bar: Vec<Vec<ParsedBeat>>| bar_view(bar@))
}

/// One voice: a beat count, then the beats, appended to `kept` when `keep`.
fn read_voice(reader: &mut Reader, keep: bool, kept: &mut Vec<ParsedBeat>) -> (r: Result<(), Gp5Error>)
    requires
        old(reader).wf(),
    ensures
        advanced(*final(reader), *old(reader)),
        match layout::read_voice(old(reader).bytes(), old(reader).position(), old(reader).gp_version(), keep, beats_view(old(kept)@)) {
            Ok((beats, p)) => r is Ok && beats_view(final(kept)@) == beats && final(reader).position() == p,
            Err(f) => r is Err && failure_of(r->Err_0) == f,
        },
{
    let ghost bytes = reader.bytes();
    let ghost version = reader.gp_version();
    let beat_count = reader.read_int()?;
    let count = count_from(beat_count);
    let mut index: u64 = 0;
    while index < count
        invariant
            reader.wf(),
            reader.bytes() == bytes,
            bytes == old(reader).bytes(),
            reader.gp_version() == version,
            version == old(reader).gp_version(),
            index <= count,
            layout::read_voice(bytes, old(reader).position(), version, keep, beats_view(old(kept)@))
                == layout::read_voice_beats(bytes, reader.position(), version, (count - index) as nat, keep, beats_view(kept@)),
        decreases count - index,
    {
        let beat = read_beat(reader)?;
        if keep {
            proof {
                assert(beats_view(kept@.push(beat)) =~= beats_view(kept@).push(beat@));
            }
            kept.push(beat);
        }
        index += 1;
    }
    Ok(())
}

/// One track of one bar: two voices (only the first kept), then a separator.
pub fn read_track_bar(reader: &mut Reader) -> (r: Result<Vec<ParsedBeat>, Gp5Error>)
    requires
        old(reader).wf(),
    ensures
        advanced(*final(reader), *old(reader)),
        match layout::read_track_bar(old(reader).bytes(), old(reader).position(), old(reader).gp_version()) {
            Ok((beats, p)) => r is Ok && beats_view(r->Ok_0@) == beats && final(reader).position() == p,
            Err(f) => r is Err && failure_of(r->Err_0) == f,
        },
{
    let mut beats: Vec<ParsedBeat> = Vec::new();
    assert(beats_view(beats@) =~= Seq::empty());
    read_voice(reader, true, &mut beats)?;
    read_voice(reader, false, &mut beats)?;
    reader.skip(1)?;
    Ok(beats)
}

/// One bar of beat data: each track's first voice.
fn read_bar(reader: &mut Reader, track_count: u64) -> (r: Result<Vec<Vec<ParsedBeat>>, Gp5Error>)
    requires
        old(reader).wf(),
    ensures
        advanced(*final(reader), *old(reader)),
        match layout::read_bar_tracks(old(reader).bytes(), old(reader).position(), old(reader).gp_version(), 0, track_count as nat, Seq::empty()) {
            Ok((bar, p)) => r is Ok && bar_view(r->Ok_0@) == bar && final(reader).position() == p,
            Err(f) => r is Err && failure_of(r->Err_0) == f,
        },
        r is Ok ==> r->Ok_0@.len() == track_count,
{
    let ghost bytes = reader.bytes();
    let ghost version = reader.gp_version();
    let mut bar: Vec<Vec<ParsedBeat>> = Vec::new();
    assert(bar_view(bar@) =~= Seq::empty());
    let mut track_index: u64 = 0;
    while track_index < track_count
        invariant
            reader.wf(),
            reader.bytes() == bytes,
            bytes == old(reader).bytes(),
            reader.gp_version() == version,
            version == old(reader).gp_version(),
            track_index <= track_count,
            bar@.len() == track_index,
            layout::read_bar_tracks(bytes, old(reader).position(), version, 0, track_count as nat, Seq::empty())
                == layout::read_bar_tracks(bytes, reader.position(), version, track_index as nat, track_count as nat, bar_view(bar@)),
        decreases track_count - track_index,
    {
        let beats = read_track_bar(reader)?;
        proof {
            assert(bar_view(bar@.push(beats)) =~= bar_view(bar@).push(beats_view(beats@)));
        }
        bar.push(beats);
        track_index += 1;
    }
    Ok(bar)
}

/// All beat data, indexed `[bar][track][beat]`.
pub fn read_all_beats(reader: &mut Reader, bar_count: u64, track_count: u64) -> (r: Result<Vec<Vec<Vec<ParsedBeat>>>, Gp5Error>)
    requires
        old(reader).wf(),
    ensures
        advanced(*final(reader), *old(reader)),
        match layout::read_all_beats_from(old(reader).bytes(), old(reader).position(), old(reader).gp_version(), 0, bar_count as nat, track_count as nat, Seq::empty()) {
            Ok((all, p)) => r is Ok && all_beats_view(r->Ok_0@) == all && final(reader).position() == p,
            Err(f) => r is Err && failure_of(r->Err_0) == f,
        },
        r is Ok ==> r->Ok_0@.len() == bar_count,
        r is Ok ==> forall|b: int| 0 <= b < bar_count ==> (#[trigger] r->Ok_0@[b])@.len() == track_count,
{
    let ghost bytes = reader.bytes();
    let ghost version = reader.gp_version();
    let mut all: Vec<Vec<Vec<ParsedBeat>>> = Vec::new();
    assert(all_beats_view(all@) =~= Seq::empty());
    let mut bar_index: u64 = 0;
    while bar_index < bar_count
        invariant
            reader.wf(),
            reader.bytes() == bytes,
            bytes == old(reader).bytes(),
            reader.gp_version() == version,
            version == old(reader).gp_version(),
            bar_index <= bar_count,
            all@.len() == bar_index,
            forall|b: int| 0 <= b < bar_index ==> (#[trigger] all@[b])@.len() == track_count,
            layout::read_all_beats_from(bytes, old(reader).position(), version, 0, bar_count as nat, track_count as nat, Seq::empty())
                == layout::read_all_beats_from(bytes, reader.position(), version, bar_index as nat, bar_count as nat, track_count as nat, all_beats_view(all@)),
        decreases bar_count - bar_index,
    {
        let bar = read_bar(reader, track_count)?;
        proof {
            assert(all_beats_view(all@.push(bar)) =~= all_beats_view(all@).push(bar_view(bar@)));
        }
        all.push(bar);
        bar_index += 1;
    }
    Ok(all)
}

} // verus!
