//! The records of a Guitar Pro 7 score document (`score.gpif`): rhythms,
//! notes, beats, voices, bars, master bars and tracks, each found by its
//! tags and read into plain values. Records with an id are kept in maps by
//! id; a later record with the same id replaces an earlier one.
use vstd::prelude::*;
use std::collections::HashMap;
use crate::text::{find_from, matches_at};
use crate::xml_text::{
    unsigned_of, words, numbers_of, tag_text, cdata_text, open_tag, close_tag, slice_chars, find_text,
    extract_tag_text, extract_cdata_text, parse_number, parse_numbers, contains, lemma_find_from_in_range,
};
use crate::tab_models::{NoteDuration, TrackInfo, TrackView};

verus! {

broadcast use vstd::std_specs::hash::group_hash_axioms;

// ---------------------------------------------------------------------
// Finding elements

/// The elements `open` … `close` from `from` on whose `open` is followed by
/// an id and a closing quote: (id, start, end) for each. An id that is not
/// a number skips to its closing quote.
pub open spec fn id_elements(text: Seq<char>, from: int, open: Seq<char>, close: Seq<char>) -> Seq<(usize, int, int)>
    decreases text.len() - from,
{
    if from < 0 || from > text.len() {
        Seq::empty()
    } else {
        match find_from(text, from, open) {
            None => Seq::empty(),
            Some(abs) => {
                let id_start = abs + open.len();
                match find_from(text, id_start, "\""@) {
                    None => Seq::empty(),
                    Some(id_end) => match unsigned_of(text.subrange(id_start, id_end), usize::MAX as nat) {
                        None => if from < id_end <= text.len() { id_elements(text, id_end, open, close) } else { Seq::empty() },
                        Some(id) => match find_from(text, abs, close) {
                            None => Seq::empty(),
                            Some(end) => if from < end <= text.len() {
                                seq![(id as usize, abs, end)] + id_elements(text, end, open, close)
                            } else {
                                seq![(id as usize, abs, end)]
                            },
                        },
                    },
                }
            },
        }
    }
}

/// The elements `open` … `close` from `from` on: (start, end) for each.
pub open spec fn plain_elements(text: Seq<char>, from: int, open: Seq<char>, close: Seq<char>) -> Seq<(int, int)>
    decreases text.len() - from,
{
    if from < 0 || from > text.len() {
        Seq::empty()
    } else {
        match find_from(text, from, open) {
            None => Seq::empty(),
            Some(abs) => match find_from(text, abs, close) {
                None => Seq::empty(),
                Some(end) => if from < end <= text.len() {
                    seq![(abs, end)] + plain_elements(text, end, open, close)
                } else {
                    seq![(abs, end)]
                },
            },
        }
    }
}

/// The part of `text` from the first `open` to the next `close` after it.
pub open spec fn section(text: Seq<char>, open: Seq<char>, close: Seq<char>) -> Option<Seq<char>> {
    match find_from(text, 0, open) {
        Some(start) => match find_from(text, start, close) {
            Some(end) => Some(text.subrange(start, end)),
            None => None,
        },
        None => None,
    }
}

pub open spec fn spans_view(spans: Seq<(usize, usize, usize)>) -> Seq<(usize, int, int)> {
    spans.map_values(|s: (usize, usize, usize)| (s.0, s.1 as int, s.2 as int))
}

pub open spec fn plain_spans_view(spans: Seq<(usize, usize)>) -> Seq<(int, int)> {
    spans.map_values(|s: (usize, usize)| (s.0 as int, s.1 as int))
}

/// The elements with ids in `text`.
pub fn scan_id_elements(text: &Vec<char>, open: &str, close: &str) -> (spans: Vec<(usize, usize, usize)>)
    ensures
        spans_view(spans@) == id_elements(text@, 0, open@, close@),
        forall|k: int| 0 <= k < spans@.len() ==> (#[trigger] spans@[k]).1 <= spans@[k].2 <= text@.len(),
{
    let ghost t = text@;
    let ghost mut done: Seq<(usize, int, int)> = Seq::empty();
    let mut spans: Vec<(usize, usize, usize)> = Vec::new();
    let mut search: usize = 0;
    let n = text.len();
    loop
        invariant
            t == text@,
            n == t.len(),
            search <= n,
            spans_view(spans@) == done,
            id_elements(t, 0, open@, close@) == done + id_elements(t, search as int, open@, close@),
            forall|k: int| 0 <= k < spans@.len() ==> (#[trigger] spans@[k]).1 <= spans@[k].2 <= t.len(),
        decreases n - search,
    {
        proof {
            lemma_find_from_in_range(t, search as int, open@);
        }
        let abs = match find_text(text, search, open) {
            Some(abs) => abs,
            None => {
                assert(done + Seq::<(usize, int, int)>::empty() =~= done);
                return spans;
            },
        };
        let open_len = chars_len(open);
        let id_start = abs + open_len;
        proof {
            lemma_find_from_in_range(t, id_start as int, "\""@);
        }
        let id_end = match find_text(text, id_start, "\"") {
            Some(id_end) => id_end,
            None => {
                assert(done + Seq::<(usize, int, int)>::empty() =~= done);
                return spans;
            },
        };
        let id_text = slice_chars(text, id_start, id_end);
        match parse_number(&id_text, usize::MAX as u64) {
            None => {
                if search < id_end && id_end <= n {
                    search = id_end;
                } else {
                    assert(done + Seq::<(usize, int, int)>::empty() =~= done);
                    return spans;
                }
            },
            Some(id) => {
                proof {
                    lemma_find_from_in_range(t, abs as int, close@);
                }
                let end = match find_text(text, abs, close) {
                    Some(end) => end,
                    None => {
                        assert(done + Seq::<(usize, int, int)>::empty() =~= done);
                        return spans;
                    },
                };
                let item = (id as usize, abs, end);
                proof {
                    assert(spans_view(spans@.push(item)) =~= spans_view(spans@).push((id as usize, abs as int, end as int)));
                    done = done.push((id as usize, abs as int, end as int));
                }
                spans.push(item);
                if search < end && end <= n {
                    assert(id_elements(t, 0, open@, close@) =~= done + id_elements(t, end as int, open@, close@));
                    search = end;
                } else {
                    assert(id_elements(t, 0, open@, close@) =~= done);
                    return spans;
                }
            },
        }
    }
}

/// The elements without ids in `text`.
pub fn scan_plain_elements(text: &Vec<char>, open: &str, close: &str) -> (spans: Vec<(usize, usize)>)
    ensures
        plain_spans_view(spans@) == plain_elements(text@, 0, open@, close@),
        forall|k: int| 0 <= k < spans@.len() ==> (#[trigger] spans@[k]).0 <= spans@[k].1 <= text@.len(),
{
    let ghost t = text@;
    let ghost mut done: Seq<(int, int)> = Seq::empty();
    let mut spans: Vec<(usize, usize)> = Vec::new();
    let mut search: usize = 0;
    let n = text.len();
    loop
        invariant
            t == text@,
            n == t.len(),
            search <= n,
            plain_spans_view(spans@) == done,
            plain_elements(t, 0, open@, close@) == done + plain_elements(t, search as int, open@, close@),
            forall|k: int| 0 <= k < spans@.len() ==> (#[trigger] spans@[k]).0 <= spans@[k].1 <= t.len(),
        decreases n - search,
    {
        proof {
            lemma_find_from_in_range(t, search as int, open@);
        }
        let abs = match find_text(text, search, open) {
            Some(abs) => abs,
            None => {
                assert(done + Seq::<(int, int)>::empty() =~= done);
                return spans;
            },
        };
        proof {
            lemma_find_from_in_range(t, abs as int, close@);
        }
        let end = match find_text(text, abs, close) {
            Some(end) => end,
            None => {
                assert(done + Seq::<(int, int)>::empty() =~= done);
                return spans;
            },
        };
        let item = (abs, end);
        proof {
            assert(plain_spans_view(spans@.push(item)) =~= plain_spans_view(spans@).push((abs as int, end as int)));
            done = done.push((abs as int, end as int));
        }
        spans.push(item);
        if search < end && end <= n {
            assert(plain_elements(t, 0, open@, close@) =~= done + plain_elements(t, end as int, open@, close@));
            search = end;
        } else {
            assert(plain_elements(t, 0, open@, close@) =~= done);
            return spans;
        }
    }
}

fn chars_len(text: &str) -> (n: usize)
    ensures
        n == text@.len(),
{
    crate::text::chars_of(text).len()
}

/// The part of `text` from the first `open` to the next `close`.
pub fn find_section(text: &Vec<char>, open: &str, close: &str) -> (part: Option<Vec<char>>)
    ensures
        match section(text@, open@, close@) {
            Some(s) => part is Some && part->Some_0@ == s,
            None => part is None,
        },
{
    proof {
        lemma_find_from_in_range(text@, 0, open@);
    }
    match find_text(text, 0, open) {
        Some(start) => {
            proof {
                lemma_find_from_in_range(text@, start as int, close@);
            }
            match find_text(text, start, close) {
                Some(end) => Some(slice_chars(text, start, end)),
                None => None,
            }
        },
        None => None,
    }
}

// ---------------------------------------------------------------------
// Number lists

proof fn lemma_numbers_bounded(ws: Seq<Seq<char>>, max: nat)
    ensures
        forall|k: int| 0 <= k < numbers_of(ws, max).len() ==> #[trigger] numbers_of(ws, max)[k] <= max,
    decreases ws.len(),
{
    if ws.len() > 0 {
        lemma_numbers_bounded(ws.drop_last(), max);
        let rest = numbers_of(ws.drop_last(), max);
        let all = numbers_of(ws, max);
        assert forall|k: int| 0 <= k < all.len() implies #[trigger] all[k] <= max by {
            if k < rest.len() {
                assert(all[k] == rest[k]);
            }
        }
    }
}

/// The whitespace-separated ids in `text` (numbers that fit a `usize`).
pub open spec fn id_list(text: Seq<char>) -> Seq<usize> {
    numbers_of(words(text), usize::MAX as nat).map_values(|n: nat| n as usize)
}

/// The whitespace-separated numbers in `text` that fit a byte.
pub open spec fn byte_list(text: Seq<char>) -> Seq<u8> {
    numbers_of(words(text), 255).map_values(|n: nat| n as u8)
}

fn parse_id_list(text: &Vec<char>) -> (ids: Vec<usize>)
    ensures
        ids@ == id_list(text@),
{
    let numbers = parse_numbers(text, usize::MAX as u64);
    proof {
        lemma_numbers_bounded(words(text@), usize::MAX as nat);
    }
    let ghost target = id_list(text@);
    let mut ids: Vec<usize> = Vec::new();
    let mut i: usize = 0;
    while i < numbers.len()
        invariant
            i <= numbers@.len(),
            numbers@.map_values(|n: u64| n as nat) == numbers_of(words(text@), usize::MAX as nat),
            forall|k: int| 0 <= k < numbers_of(words(text@), usize::MAX as nat).len() ==> #[trigger] numbers_of(words(text@), usize::MAX as nat)[k] <= usize::MAX,
            target == id_list(text@),
            ids@ == target.take(i as int),
        decreases numbers@.len() - i,
    {
        let n = numbers[i];
        assert(numbers@.map_values(|n: u64| n as nat)[i as int] == n as nat);
        assert(n <= usize::MAX);
        ids.push(n as usize);
        i += 1;
        assert(ids@ =~= target.take(i as int));
    }
    assert(target.take(i as int) =~= target);
    ids
}

fn parse_byte_list(text: &Vec<char>) -> (bytes: Vec<u8>)
    ensures
        bytes@ == byte_list(text@),
{
    let numbers = parse_numbers(text, 255);
    proof {
        lemma_numbers_bounded(words(text@), 255);
    }
    let ghost target = byte_list(text@);
    let mut bytes: Vec<u8> = Vec::new();
    let mut i: usize = 0;
    while i < numbers.len()
        invariant
            i <= numbers@.len(),
            numbers@.map_values(|n: u64| n as nat) == numbers_of(words(text@), 255),
            forall|k: int| 0 <= k < numbers_of(words(text@), 255).len() ==> #[trigger] numbers_of(words(text@), 255)[k] <= 255,
            target == byte_list(text@),
            bytes@ == target.take(i as int),
        decreases numbers@.len() - i,
    {
        let n = numbers[i];
        assert(numbers@.map_values(|n: u64| n as nat)[i as int] == n as nat);
        assert(n <= 255);
        bytes.push(n as u8);
        i += 1;
        assert(bytes@ =~= target.take(i as int));
    }
    assert(target.take(i as int) =~= target);
    bytes
}

/// The ids in the contents of `<tag>`, none when there is no such tag.
pub open spec fn tag_ids(text: Seq<char>, tag: Seq<char>) -> Seq<usize> {
    match tag_text(text, tag) {
        Some(t) => id_list(t),
        None => Seq::empty(),
    }
}

pub fn extract_tag_ids(text: &Vec<char>, tag: &str) -> (ids: Vec<usize>)
    ensures
        ids@ == tag_ids(text@, tag@),
{
    match extract_tag_text(text, tag) {
        Some(t) => parse_id_list(&t),
        None => Vec::new(),
    }
}

/// A byte read from optional text: the number, or `default` when there is
/// no text or it is not a number that fits a byte.
pub open spec fn byte_or(text: Option<Seq<char>>, default: u8) -> u8 {
    match text {
        Some(t) => match unsigned_of(t, 255) {
            Some(n) => n as u8,
            None => default,
        },
        None => default,
    }
}

fn parse_byte_or(text: Option<Vec<char>>, default: u8) -> (value: u8)
    ensures
        value == byte_or(match text { Some(t) => Some(t@), None => None }, default),
{
    match text {
        Some(t) => match parse_number(&t, 255) {
            Some(n) => n as u8,
            None => default,
        },
        None => default,
    }
}

// ---------------------------------------------------------------------
// Properties

pub open spec fn property_open(name: Seq<char>) -> Seq<char> {
    "<Property name=\""@ + name + "\">"@
}

/// The contents of `<tag>` after the first `<Property name="name">`, untrimmed.
pub open spec fn property_text(text: Seq<char>, name: Seq<char>, tag: Seq<char>) -> Option<Seq<char>> {
    match find_from(text, 0, property_open(name)) {
        Some(p) => match find_from(text, p, open_tag(tag)) {
            Some(s) => {
                let start = s + open_tag(tag).len();
                match find_from(text, start, close_tag(tag)) {
                    Some(end) => Some(text.subrange(start, end)),
                    None => None,
                }
            },
            None => None,
        },
        None => None,
    }
}

fn literal_chars(parts: &str) -> (chars: Vec<char>)
    ensures
        chars@ == parts@,
{
    crate::text::chars_of(parts)
}

fn extract_property_text(text: &Vec<char>, name: &str, tag: &str) -> (value: Option<Vec<char>>)
    ensures
        match property_text(text@, name@, tag@) {
            Some(t) => value is Some && value->Some_0@ == t,
            None => value is None,
        },
{
    let text_len = text.len();
    let mut opener = literal_chars("<Property name=\"");
    let mut name_chars = literal_chars(name);
    let mut closer = literal_chars("\">");
    opener.append(&mut name_chars);
    opener.append(&mut closer);
    assert(opener@ =~= property_open(name@));
    let mut tag_open: Vec<char> = literal_chars("<");
    let mut tag_name = literal_chars(tag);
    tag_open.append(&mut tag_name);
    let mut gt = literal_chars(">");
    tag_open.append(&mut gt);
    assert(tag_open@ =~= open_tag(tag@));
    let mut tag_close: Vec<char> = literal_chars("</");
    let mut tag_name2 = literal_chars(tag);
    tag_close.append(&mut tag_name2);
    let mut gt2 = literal_chars(">");
    tag_close.append(&mut gt2);
    assert(tag_close@ =~= close_tag(tag@));
    proof {
        lemma_find_from_in_range(text@, 0, opener@);
    }
    let p = match crate::xml_text::find_chars(text, 0, &opener) {
        Some(p) => p,
        None => { return None; },
    };
    proof {
        lemma_find_from_in_range(text@, p as int, tag_open@);
    }
    let s = match crate::xml_text::find_chars(text, p, &tag_open) {
        Some(s) => s,
        None => { return None; },
    };
    let start = s + tag_open.len();
    proof {
        lemma_find_from_in_range(text@, start as int, tag_close@);
    }
    match crate::xml_text::find_chars(text, start, &tag_close) {
        Some(end) => Some(slice_chars(text, start, end)),
        None => None,
    }
}

// ---------------------------------------------------------------------
// Records

/// The duration code of a `<NoteValue>`; an unknown value is a quarter.
pub open spec fn note_value_code(value: Seq<char>) -> i8 {
    if value == "Whole"@ { -2i8 }
    else if value == "Half"@ { -1i8 }
    else if value == "Quarter"@ { 0 }
    else if value == "Eighth"@ { 1 }
    else if value == "16th"@ { 2 }
    else if value == "32nd"@ { 3 }
    else if value == "64th"@ { 4 }
    else { 0 }
}

/// The tuplet of a rhythm: `<Num>` and `<Den>` of its `<PrimaryTuplet>`,
/// 1 each when missing.
pub open spec fn tuplet_of(rhythm: Seq<char>) -> (u8, u8) {
    match find_from(rhythm, 0, "<PrimaryTuplet>"@) {
        Some(start) => match find_from(rhythm, start, "</PrimaryTuplet>"@) {
            Some(end) => {
                let tuplet = rhythm.subrange(start, end);
                (byte_or(tag_text(tuplet, "Num"@), 1), byte_or(tag_text(tuplet, "Den"@), 1))
            },
            None => (1, 1),
        },
        None => (1, 1),
    }
}

/// A `<Rhythm>` element as a written duration.
pub open spec fn rhythm_of(rhythm: Seq<char>) -> NoteDuration {
    NoteDuration {
        value: match tag_text(rhythm, "NoteValue"@) { Some(v) => note_value_code(v), None => 0 },
        dotted: find_from(rhythm, 0, "<AugmentationDot "@) is Some,
        tuplet_enters: tuplet_of(rhythm).0,
        tuplet_times: tuplet_of(rhythm).1,
    }
}

fn chars_equal(text: &Vec<char>, literal: &str) -> (equal: bool)
    ensures
        equal == (text@ == literal@),
{
    let other = literal_chars(literal);
    if text.len() != other.len() {
        return false;
    }
    let mut i: usize = 0;
    while i < text.len()
        invariant
            other@ == literal@,
            text@.len() == other@.len(),
            i <= text@.len(),
            forall|k: int| 0 <= k < i ==> text@[k] == other@[k],
        decreases text@.len() - i,
    {
        if text[i] != other[i] {
            return false;
        }
        i += 1;
    }
    assert(text@ =~= other@);
    true
}

fn note_value_to_duration(value: &Vec<char>) -> (code: i8)
    ensures
        code == note_value_code(value@),
{
    if chars_equal(value, "Whole") { -2 }
    else if chars_equal(value, "Half") { -1 }
    else if chars_equal(value, "Quarter") { 0 }
    else if chars_equal(value, "Eighth") { 1 }
    else if chars_equal(value, "16th") { 2 }
    else if chars_equal(value, "32nd") { 3 }
    else if chars_equal(value, "64th") { 4 }
    else { 0 }
}

fn extract_tuplet(rhythm: &Vec<char>) -> (tuplet: (u8, u8))
    ensures
        tuplet == tuplet_of(rhythm@),
{
    proof {
        lemma_find_from_in_range(rhythm@, 0, "<PrimaryTuplet>"@);
    }
    match find_text(rhythm, 0, "<PrimaryTuplet>") {
        Some(start) => {
            proof {
                lemma_find_from_in_range(rhythm@, start as int, "</PrimaryTuplet>"@);
            }
            match find_text(rhythm, start, "</PrimaryTuplet>") {
                Some(end) => {
                    let tuplet = slice_chars(rhythm, start, end);
                    let enters = parse_byte_or(extract_tag_text(&tuplet, "Num"), 1);
                    let times = parse_byte_or(extract_tag_text(&tuplet, "Den"), 1);
                    (enters, times)
                },
                None => (1, 1),
            }
        },
        None => (1, 1),
    }
}

pub fn read_rhythm(rhythm: &Vec<char>) -> (duration: NoteDuration)
    ensures
        duration == rhythm_of(rhythm@),
{
    let value = match extract_tag_text(rhythm, "NoteValue") {
        Some(v) => note_value_to_duration(&v),
        None => 0,
    };
    let dotted = contains(rhythm, "<AugmentationDot ");
    let (tuplet_enters, tuplet_times) = extract_tuplet(rhythm);
    NoteDuration { value, dotted, tuplet_enters, tuplet_times }
}

#[derive(Debug, Clone, Copy, PartialEq, Eq, Structural)]
pub struct GpNote {
    pub string: u8,
    pub fret: u8,
}

/// A `<Note>` element: its fret and (0-based, low first) string properties,
/// 0 when missing.
pub open spec fn note_of(note: Seq<char>) -> GpNote {
    GpNote {
        string: byte_or(property_text(note, "String"@, "String"@), 0),
        fret: byte_or(property_text(note, "Fret"@, "Fret"@), 0),
    }
}

pub fn read_note(note: &Vec<char>) -> (record: GpNote)
    ensures
        record == note_of(note@),
{
    let fret = parse_byte_or(extract_property_text(note, "Fret", "Fret"), 0);
    let string = parse_byte_or(extract_property_text(note, "String", "String"), 0);
    GpNote { string, fret }
}

pub struct GpBeat {
    pub rhythm_id: usize,
    pub note_ids: Vec<usize>,
    pub is_rest: bool,
}

pub struct BeatRecord {
    pub rhythm_id: usize,
    pub note_ids: Seq<usize>,
    pub is_rest: bool,
}

impl View for GpBeat {
    type V = BeatRecord;

    open spec fn view(&self) -> BeatRecord {
        BeatRecord { rhythm_id: self.rhythm_id, note_ids: self.note_ids@, is_rest: self.is_rest }
    }
}

/// The id in a `<Rhythm ref="…">`, 0 when missing or not a number.
pub open spec fn rhythm_ref_of(beat: Seq<char>) -> usize {
    match find_from(beat, 0, "<Rhythm ref=\""@) {
        Some(p) => {
            let start = p + 13;
            match find_from(beat, start, "\""@) {
                Some(end) => match unsigned_of(beat.subrange(start, end), usize::MAX as nat) {
                    Some(n) => n as usize,
                    None => 0,
                },
                None => 0,
            }
        },
        None => 0,
    }
}

/// A `<Beat>` element: its rhythm, its notes, and whether it is a rest (a
/// grace-note beat, or one with no notes at all).
pub open spec fn beat_of(beat: Seq<char>) -> BeatRecord {
    let note_ids = tag_ids(beat, "Notes"@);
    BeatRecord {
        rhythm_id: rhythm_ref_of(beat),
        note_ids,
        is_rest: find_from(beat, 0, "<GraceNotes/>"@) is Some || (note_ids.len() == 0 && find_from(beat, 0, "<Notes>"@) is None),
    }
}

fn extract_rhythm_ref(beat: &Vec<char>) -> (id: usize)
    ensures
        id == rhythm_ref_of(beat@),
{
    let beat_len = beat.len();
    proof {
        reveal_strlit("<Rhythm ref=\"");
        lemma_find_from_in_range(beat@, 0, "<Rhythm ref=\""@);
    }
    match find_text(beat, 0, "<Rhythm ref=\"") {
        Some(p) => {
            let start = p + 13;
            proof {
                lemma_find_from_in_range(beat@, start as int, "\""@);
            }
            match find_text(beat, start, "\"") {
                Some(end) => {
                    let id_text = slice_chars(beat, start, end);
                    match parse_number(&id_text, usize::MAX as u64) {
                        Some(n) => n as usize,
                        None => 0,
                    }
                },
                None => 0,
            }
        },
        None => 0,
    }
}

pub fn read_beat(beat: &Vec<char>) -> (record: GpBeat)
    ensures
        record@ == beat_of(beat@),
{
    let rhythm_id = extract_rhythm_ref(beat);
    let note_ids = extract_tag_ids(beat, "Notes");
    let is_rest = contains(beat, "<GraceNotes/>") || (note_ids.len() == 0 && !contains(beat, "<Notes>"));
    GpBeat { rhythm_id, note_ids, is_rest }
}

pub struct GpMasterBar {
    pub time_sig_num: u8,
    pub time_sig_denom: u8,
    pub bar_ids: Vec<usize>,
}

pub struct MasterBarRecord {
    pub time_sig_num: u8,
    pub time_sig_denom: u8,
    pub bar_ids: Seq<usize>,
}

impl View for GpMasterBar {
    type V = MasterBarRecord;

    open spec fn view(&self) -> MasterBarRecord {
        MasterBarRecord { time_sig_num: self.time_sig_num, time_sig_denom: self.time_sig_denom, bar_ids: self.bar_ids@ }
    }
}

/// The time signature of a master bar: `<Time>` split at its one `/`; 4
/// for a part that is not a number, 4/4 without such a `<Time>`.
pub open spec fn time_sig_of(bar: Seq<char>) -> (u8, u8) {
    match tag_text(bar, "Time"@) {
        Some(t) => match find_from(t, 0, "/"@) {
            Some(k) => if find_from(t, k + 1, "/"@) is None {
                (byte_or(Some(t.subrange(0, k)), 4), byte_or(Some(t.subrange(k + 1, t.len() as int)), 4))
            } else {
                (4, 4)
            },
            None => (4, 4),
        },
        None => (4, 4),
    }
}

pub open spec fn master_bar_of(bar: Seq<char>) -> MasterBarRecord {
    MasterBarRecord {
        time_sig_num: time_sig_of(bar).0,
        time_sig_denom: time_sig_of(bar).1,
        bar_ids: tag_ids(bar, "Bars"@),
    }
}

fn extract_time_sig(bar: &Vec<char>) -> (sig: (u8, u8))
    ensures
        sig == time_sig_of(bar@),
{
    match extract_tag_text(bar, "Time") {
        Some(t) => {
            let t_len = t.len();
            proof {
                lemma_find_from_in_range(t@, 0, "/"@);
            }
            match find_text(&t, 0, "/") {
                Some(k) => {
                    proof {
                        reveal_strlit("/");
                    }
                    if find_text(&t, k + 1, "/").is_none() {
                        let num = parse_byte_or(Some(slice_chars(&t, 0, k)), 4);
                        let denom = parse_byte_or(Some(slice_chars(&t, k + 1, t.len())), 4);
                        (num, denom)
                    } else {
                        (4, 4)
                    }
                },
                None => (4, 4),
            }
        },
        None => (4, 4),
    }
}

pub fn read_master_bar(bar: &Vec<char>) -> (record: GpMasterBar)
    ensures
        record@ == master_bar_of(bar@),
{
    let (time_sig_num, time_sig_denom) = extract_time_sig(bar);
    let bar_ids = extract_tag_ids(bar, "Bars");
    GpMasterBar { time_sig_num, time_sig_denom, bar_ids }
}

pub open spec fn standard_tuning() -> Seq<u8> {
    seq![40u8, 45, 50, 55, 59, 64]
}

/// A `<Track>` element: its name, tuning (`<Pitches>`, low string first;
/// standard tuning when missing) and capo; no MIDI channel or port.
pub open spec fn track_of(track: Seq<char>) -> TrackView {
    let tuning = match tag_text(track, "Pitches"@) {
        Some(t) => byte_list(t),
        None => standard_tuning(),
    };
    TrackView {
        name: match cdata_text(track, "Name"@) { Some(n) => n, None => Seq::empty() },
        tuning,
        capo: byte_or(property_text(track, "CapoFret"@, "Fret"@), 0),
        string_count: (tuning.len() % 256) as u8,
        midi_channel: 0,
        midi_port: 0,
    }
}

fn chars_to_string(chars: &Vec<char>) -> (text: String)
    ensures
        text@ == chars@,
{
    crate::text::string_from_range(chars, 0, chars.len())
}

pub fn read_track(track: &Vec<char>) -> (info: TrackInfo)
    ensures
        info@ == track_of(track@),
{
    let name = match extract_cdata_text(track, "Name") {
        Some(n) => chars_to_string(&n),
        None => String::new(),
    };
    let tuning = match extract_tag_text(track, "Pitches") {
        Some(t) => parse_byte_list(&t),
        None => {
            let mut standard: Vec<u8> = Vec::new();
            standard.push(40);
            standard.push(45);
            standard.push(50);
            standard.push(55);
            standard.push(59);
            standard.push(64);
            assert(standard@ =~= standard_tuning());
            standard
        },
    };
    let capo = parse_byte_or(extract_property_text(track, "CapoFret", "Fret"), 0);
    let string_count = (tuning.len() % 256) as u8;
    TrackInfo { name, tuning, capo, string_count, midi_channel: 0, midi_port: 0 }
}

/// Note values and their codes: a quarter is 0, and each value half as
/// long as the one before has a code one higher (whole, half, quarter,
/// eighth, 16th, 32nd, 64th); any other value counts as a quarter.
pub proof fn lemma_note_value_codes_halve()
    ensures
        note_value_code("Quarter"@) == 0,
        note_value_code("Half"@) == note_value_code("Whole"@) + 1,
        note_value_code("Quarter"@) == note_value_code("Half"@) + 1,
        note_value_code("Eighth"@) == note_value_code("Quarter"@) + 1,
        note_value_code("16th"@) == note_value_code("Eighth"@) + 1,
        note_value_code("32nd"@) == note_value_code("16th"@) + 1,
        note_value_code("64th"@) == note_value_code("32nd"@) + 1,
        forall|value: Seq<char>| value != "Whole"@ && value != "Half"@ && value != "Quarter"@ && value != "Eighth"@
            && value != "16th"@ && value != "32nd"@ && value != "64th"@ ==> #[trigger] note_value_code(value) == 0,
{
    reveal_strlit("Whole");
    reveal_strlit("Half");
    reveal_strlit("Quarter");
    reveal_strlit("Eighth");
    reveal_strlit("16th");
    reveal_strlit("32nd");
    reveal_strlit("64th");
    assert("Half"@.len() == 4 && "Whole"@.len() == 5 && "Quarter"@.len() == 7);
    assert("Half"@ != "Whole"@ && "Quarter"@ != "Whole"@ && "Quarter"@ != "Half"@);
    assert("Eighth"@.len() != "Whole"@.len() && "Eighth"@[0] != "Half"@[0] && "Eighth"@[0] != "Quarter"@[0]);
    assert("16th"@[0] != "Whole"@[0] && "16th"@[0] != "Half"@[0] && "16th"@[0] != "Quarter"@[0] && "16th"@[0] != "Eighth"@[0]);
    assert("32nd"@[0] != "Whole"@[0] && "32nd"@[0] != "Half"@[0] && "32nd"@[0] != "Quarter"@[0] && "32nd"@[0] != "Eighth"@[0]
        && "32nd"@[0] != "16th"@[0]);
    assert("64th"@[0] != "Whole"@[0] && "64th"@[0] != "Half"@[0] && "64th"@[0] != "Quarter"@[0] && "64th"@[0] != "Eighth"@[0]
        && "64th"@[0] != "16th"@[0] && "64th"@[0] != "32nd"@[0]);
}

} // verus!
