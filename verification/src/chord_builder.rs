//! Diatonic chord construction on a scale degree: chord symbols and
//! playable one-note-per-string voicings.
use vstd::prelude::*;
use crate::scale_data::{Scale, note_name, spec_note_name, standard_tuning, spec_standard_tuning, NUM_FRETS};
use crate::text::str_equal;

verus! {

pub struct ChordStructure {
    pub label: &'static str,
    pub offsets: Vec<usize>,
    pub tone_labels: Vec<&'static str>,
}

#[derive(Debug, Clone, PartialEq)]
pub struct VoicingNote {
    pub string_index: usize,
    pub fret: usize,
    pub label: String,
}

/// Scale-step offsets (from the chord root) of each built-in chord structure.
pub open spec fn table_offsets(index: int) -> Seq<usize> {
    if index == 0 { seq![0usize, 2, 4] }
    else if index == 1 { seq![0usize, 2, 4, 6] }
    else if index == 2 { seq![0usize, 2, 4, 6, 1] }
    else if index == 3 { seq![0usize, 4, 6, 1, 3] }
    else if index == 4 { seq![0usize, 2, 6, 5] }
    else if index == 5 { seq![0usize, 2, 4, 5] }
    else if index == 6 { seq![0usize, 2, 4, 1] }
    else if index == 7 { seq![0usize, 2, 4, 3] }
    else if index == 8 { seq![0usize, 3, 4] }
    else { seq![0usize, 1, 4] }
}

/// Label of each built-in chord structure.
pub open spec fn table_label(index: int) -> Seq<char> {
    if index == 0 { "Triad"@ }
    else if index == 1 { "7th"@ }
    else if index == 2 { "9th"@ }
    else if index == 3 { "11th"@ }
    else if index == 4 { "13th"@ }
    else if index == 5 { "6th"@ }
    else if index == 6 { "add9"@ }
    else if index == 7 { "add11"@ }
    else if index == 8 { "sus4"@ }
    else { "sus2"@ }
}

/// Label of each tone of each built-in chord structure, in the order of its offsets.
pub open spec fn table_tone_labels(index: int) -> Seq<Seq<char>> {
    if index == 0 { seq!["R"@, "3"@, "5"@] }
    else if index == 1 { seq!["R"@, "3"@, "5"@, "7"@] }
    else if index == 2 { seq!["R"@, "3"@, "5"@, "7"@, "9"@] }
    else if index == 3 { seq!["R"@, "5"@, "7"@, "9"@, "11"@] }
    else if index == 4 { seq!["R"@, "3"@, "7"@, "13"@] }
    else if index == 5 { seq!["R"@, "3"@, "5"@, "6"@] }
    else if index == 6 { seq!["R"@, "3"@, "5"@, "9"@] }
    else if index == 7 { seq!["R"@, "3"@, "5"@, "11"@] }
    else if index == 8 { seq!["R"@, "4"@, "5"@] }
    else { seq!["R"@, "2"@, "5"@] }
}

pub open spec fn structure_matches_table(structure: ChordStructure, index: int) -> bool {
    &&& structure.label@ == table_label(index)
    &&& structure.offsets@ == table_offsets(index)
    &&& structure.tone_labels@.len() == structure.offsets@.len()
    &&& structure.tone_labels@.map_values(|label: &'static str| label@) == table_tone_labels(index)
}

/// The ten built-in chord structures, from the plain triad to sus2.
pub fn chord_structures() -> (structures: Vec<ChordStructure>)
    ensures
        structures@.len() == 10,
        forall|i: int| 0 <= i < 10 ==> structure_matches_table(#[trigger] structures@[i], i),
{
    let s0 = ChordStructure { label: "Triad", offsets: vec![0, 2, 4], tone_labels: vec!["R", "3", "5"] };
    let s1 = ChordStructure { label: "7th", offsets: vec![0, 2, 4, 6], tone_labels: vec!["R", "3", "5", "7"] };
    let s2 = ChordStructure { label: "9th", offsets: vec![0, 2, 4, 6, 1], tone_labels: vec!["R", "3", "5", "7", "9"] };
    let s3 = ChordStructure { label: "11th", offsets: vec![0, 4, 6, 1, 3], tone_labels: vec!["R", "5", "7", "9", "11"] };
    let s4 = ChordStructure { label: "13th", offsets: vec![0, 2, 6, 5], tone_labels: vec!["R", "3", "7", "13"] };
    let s5 = ChordStructure { label: "6th", offsets: vec![0, 2, 4, 5], tone_labels: vec!["R", "3", "5", "6"] };
    let s6 = ChordStructure { label: "add9", offsets: vec![0, 2, 4, 1], tone_labels: vec!["R", "3", "5", "9"] };
    let s7 = ChordStructure { label: "add11", offsets: vec![0, 2, 4, 3], tone_labels: vec!["R", "3", "5", "11"] };
    let s8 = ChordStructure { label: "sus4", offsets: vec![0, 3, 4], tone_labels: vec!["R", "4", "5"] };
    let s9 = ChordStructure { label: "sus2", offsets: vec![0, 1, 4], tone_labels: vec!["R", "2", "5"] };
    let structures = vec![s0, s1, s2, s3, s4, s5, s6, s7, s8, s9];
    assert forall|i: int| 0 <= i < 10 implies structure_matches_table(#[trigger] structures@[i], i) by {
        if i == 0 { assert(structures@[i] == s0); assert(s0.tone_labels@.map_values(|label: &'static str| label@) =~= table_tone_labels(i)); }
        else if i == 1 { assert(structures@[i] == s1); assert(s1.tone_labels@.map_values(|label: &'static str| label@) =~= table_tone_labels(i)); }
        else if i == 2 { assert(structures@[i] == s2); assert(s2.tone_labels@.map_values(|label: &'static str| label@) =~= table_tone_labels(i)); }
        else if i == 3 { assert(structures@[i] == s3); assert(s3.tone_labels@.map_values(|label: &'static str| label@) =~= table_tone_labels(i)); }
        else if i == 4 { assert(structures@[i] == s4); assert(s4.tone_labels@.map_values(|label: &'static str| label@) =~= table_tone_labels(i)); }
        else if i == 5 { assert(structures@[i] == s5); assert(s5.tone_labels@.map_values(|label: &'static str| label@) =~= table_tone_labels(i)); }
        else if i == 6 { assert(structures@[i] == s6); assert(s6.tone_labels@.map_values(|label: &'static str| label@) =~= table_tone_labels(i)); }
        else if i == 7 { assert(structures@[i] == s7); assert(s7.tone_labels@.map_values(|label: &'static str| label@) =~= table_tone_labels(i)); }
        else if i == 8 { assert(structures@[i] == s8); assert(s8.tone_labels@.map_values(|label: &'static str| label@) =~= table_tone_labels(i)); }
        else { assert(structures@[i] == s9); assert(s9.tone_labels@.map_values(|label: &'static str| label@) =~= table_tone_labels(i)); }
    }
    structures
}

/// Rust's `%` on integers (the remainder takes the sign of the dividend).
pub open spec fn truncated_rem(value: int, modulus: int) -> int {
    if value >= 0 { value % modulus } else { -((-value) % modulus) }
}

/// The interval (in semitones, as a byte) from the chord root up to the
/// chord tone `offset` scale steps above it, when the structure has that
/// offset.
pub open spec fn chord_interval(intervals: Seq<u8>, degree: int, offsets: Seq<usize>, offset: int) -> Option<int> {
    if offsets.contains(offset as usize) {
        let len = intervals.len() as int;
        let raw = intervals[(degree + offset) % len] as int - intervals[degree % len] as int + 12;
        let rem = truncated_rem(raw, 12);
        Some(if rem >= 0 { rem } else { rem + 256 })
    } else {
        None
    }
}

pub open spec fn unwrap_or_zero(value: Option<int>) -> int {
    match value { Some(v) => v, None => 0 }
}

/// The quality suffix of a chord symbol, chosen from the chord's third,
/// fifth, seventh (and, for some structures, second/fourth/ninth).
pub open spec fn spec_chord_suffix(label: Seq<char>, intervals: Seq<u8>, degree: int, offsets: Seq<usize>) -> Seq<char> {
    let third = chord_interval(intervals, degree, offsets, 2);
    let fifth = chord_interval(intervals, degree, offsets, 4);
    let seventh = chord_interval(intervals, degree, offsets, 6);
    let maj3 = third == Some(4int);
    let min3 = third == Some(3int);
    let dim5 = fifth == Some(6int);
    let aug5 = fifth == Some(8int);
    let perf5 = fifth == Some(7int);
    let maj7 = seventh == Some(11int);
    let min7 = seventh == Some(10int);
    let dim7 = seventh == Some(9int);
    if label == "Triad"@ {
        if maj3 && perf5 { ""@ }
        else if min3 && perf5 { "m"@ }
        else if min3 && dim5 { "dim"@ }
        else if maj3 && aug5 { "aug"@ }
        else { "?"@ }
    } else if label == "7th"@ {
        if maj3 && !dim5 && !aug5 && maj7 { "maj7"@ }
        else if min3 && !dim5 && min7 { "m7"@ }
        else if maj3 && !dim5 && !aug5 && min7 { "7"@ }
        else if min3 && dim5 && min7 { "m7\u{266D}5"@ }
        else if min3 && dim5 && dim7 { "dim7"@ }
        else if maj3 && aug5 && maj7 { "aug(\u{0394})"@ }
        else if min3 && !dim5 && maj7 { "m(\u{0394})"@ }
        else if maj3 && aug5 && min7 { "aug7"@ }
        else { "7?"@ }
    } else if label == "9th"@ {
        let ninth = unwrap_or_zero(chord_interval(intervals, degree, offsets, 1));
        if maj3 && maj7 { "maj9"@ }
        else if min3 && min7 && !dim5 { "m9"@ }
        else if maj3 && min7 {
            if ninth == 2 { "9"@ }
            else if ninth == 1 { "7(\u{266D}9)"@ }
            else if ninth == 3 { "7(\u{266F}9)"@ }
            else { "7(?)"@ }
        }
        else if min3 && maj7 { "m(\u{0394})9"@ }
        else if min3 && dim5 && min7 { "m9\u{266D}5"@ }
        else { "9?"@ }
    } else if label == "11th"@ {
        if maj7 { "maj11"@ } else if min7 { "11"@ } else { "11?"@ }
    } else if label == "13th"@ {
        if maj3 && min7 { "13"@ }
        else if maj3 && maj7 { "maj13"@ }
        else if min3 && min7 { "m13"@ }
        else if min3 && maj7 { "m(\u{0394})13"@ }
        else { "13?"@ }
    } else if label == "6th"@ {
        if maj3 && perf5 { "6"@ } else if min3 && perf5 { "m6"@ } else { "?6"@ }
    } else if label == "add9"@ {
        if maj3 { "add9"@ } else if min3 { "m(add9)"@ } else { "add9?"@ }
    } else if label == "add11"@ {
        if maj3 { "add11"@ } else if min3 { "m(add11)"@ } else { "add11?"@ }
    } else if label == "sus4"@ {
        let fourth = unwrap_or_zero(chord_interval(intervals, degree, offsets, 3));
        if fourth == 5 && perf5 { "sus4"@ }
        else if fourth == 6 && perf5 { "sus\u{266F}4"@ }
        else { "sus4?"@ }
    } else if label == "sus2"@ {
        let second = unwrap_or_zero(chord_interval(intervals, degree, offsets, 1));
        if second == 2 && perf5 { "sus2"@ }
        else if second == 1 && perf5 { "sus\u{266D}2"@ }
        else { "sus2?"@ }
    } else {
        "?"@
    }
}

/// Pitch class of the chord root built on `degree` of `scale` rooted at `root`.
pub open spec fn chord_root_class(root: u8, intervals: Seq<u8>, degree: int) -> int {
    (root as int + intervals[degree % (intervals.len() as int)] as int) % 12
}

pub open spec fn chord_symbol_requires(root: u8, intervals: Seq<u8>, degree: int, offsets: Seq<usize>) -> bool {
    &&& intervals.len() > 0
    &&& root as int + intervals[degree % (intervals.len() as int)] as int <= u8::MAX
    &&& forall|offset: usize| 1 <= offset <= 6 && offsets.contains(offset) ==> degree + offset <= usize::MAX
}

/// The interval of the chord tone `offset` steps above the chord root, if
/// the structure contains it.
fn interval_for(scale: &Scale, degree: usize, structure: &ChordStructure, offset: usize, root_interval: u8) -> (interval: Option<u8>)
    requires
        scale.intervals@.len() > 0,
        1 <= offset <= 6,
        root_interval == scale.intervals@[degree as int % scale.intervals@.len() as int],
        structure.offsets@.contains(offset) ==> degree + offset <= usize::MAX,
    ensures
        match chord_interval(scale.intervals@, degree as int, structure.offsets@, offset as int) {
            Some(v) => interval == Some(v as u8),
            None => interval is None,
        },
{
    let mut index: usize = 0;
    let mut found = false;
    while index < structure.offsets.len()
        invariant
            index <= structure.offsets@.len(),
            found == exists|j: int| 0 <= j < index && structure.offsets@[j] == offset,
        decreases structure.offsets@.len() - index,
    {
        if structure.offsets[index] == offset {
            found = true;
        }
        index += 1;
    }
    if found {
        assert(structure.offsets@.contains(offset));
        let len = scale.intervals.len();
        let raw: i16 = scale.intervals[(degree + offset) % len] as i16 - root_interval as i16 + 12;
        let rem: i16 = if raw >= 0 { raw % 12 } else { -((-raw) % 12) };
        let value: u8 = if rem >= 0 { rem as u8 } else { (rem + 256) as u8 };
        Some(value)
    } else {
        assert(!structure.offsets@.contains(offset));
        None
    }
}

fn is_interval(value: Option<u8>, expected: u8) -> (matches: bool)
    ensures
        matches == (value == Some(expected)),
{
    match value {
        Some(v) => v == expected,
        None => false,
    }
}

/// The chord symbol (e.g. "Em7", "Bdim") of the chord built on `degree`
/// with `structure` inside `scale` rooted at `root`.
pub fn chord_symbol(root: u8, scale: &Scale, degree: usize, structure: &ChordStructure) -> (symbol: String)
    requires
        chord_symbol_requires(root, scale.intervals@, degree as int, structure.offsets@),
    ensures
        symbol@ == spec_note_name(chord_root_class(root, scale.intervals@, degree as int))
            + spec_chord_suffix(structure.label@, scale.intervals@, degree as int, structure.offsets@),
{
    let scale_len = scale.intervals.len();
    let root_interval = scale.intervals[degree % scale_len];
    let chord_root = (root + root_interval) % 12;

    let third = interval_for(scale, degree, structure, 2, root_interval);
    let fifth = interval_for(scale, degree, structure, 4, root_interval);
    let seventh = interval_for(scale, degree, structure, 6, root_interval);

    let is_maj_third = is_interval(third, 4);
    let is_min_third = is_interval(third, 3);
    let is_dim_fifth = is_interval(fifth, 6);
    let is_aug_fifth = is_interval(fifth, 8);
    let is_perf_fifth = is_interval(fifth, 7);
    let is_maj7 = is_interval(seventh, 11);
    let is_min7 = is_interval(seventh, 10);
    let is_dim7 = is_interval(seventh, 9);

    let label = structure.label;
    let suffix: &'static str = if str_equal(label, "Triad") {
        if is_maj_third && is_perf_fifth { "" }
        else if is_min_third && is_perf_fifth { "m" }
        else if is_min_third && is_dim_fifth { "dim" }
        else if is_maj_third && is_aug_fifth { "aug" }
        else { "?" }
    } else if str_equal(label, "7th") {
        if is_maj_third && !is_dim_fifth && !is_aug_fifth && is_maj7 { "maj7" }
        else if is_min_third && !is_dim_fifth && is_min7 { "m7" }
        else if is_maj_third && !is_dim_fifth && !is_aug_fifth && is_min7 { "7" }
        else if is_min_third && is_dim_fifth && is_min7 { "m7\u{266D}5" }
        else if is_min_third && is_dim_fifth && is_dim7 { "dim7" }
        else if is_maj_third && is_aug_fifth && is_maj7 { "aug(\u{0394})" }
        else if is_min_third && !is_dim_fifth && is_maj7 { "m(\u{0394})" }
        else if is_maj_third && is_aug_fifth && is_min7 { "aug7" }
        else { "7?" }
    } else if str_equal(label, "9th") {
        let ninth: u8 = match interval_for(scale, degree, structure, 1, root_interval) {
            Some(v) => v,
            None => 0,
        };
        if is_maj_third && is_maj7 { "maj9" }
        else if is_min_third && is_min7 && !is_dim_fifth { "m9" }
        else if is_maj_third && is_min7 {
            if ninth == 2 { "9" }
            else if ninth == 1 { "7(\u{266D}9)" }
            else if ninth == 3 { "7(\u{266F}9)" }
            else { "7(?)" }
        }
        else if is_min_third && is_maj7 { "m(\u{0394})9" }
        else if is_min_third && is_dim_fifth && is_min7 { "m9\u{266D}5" }
        else { "9?" }
    } else if str_equal(label, "11th") {
        if is_maj7 { "maj11" } else if is_min7 { "11" } else { "11?" }
    } else if str_equal(label, "13th") {
        if is_maj_third && is_min7 { "13" }
        else if is_maj_third && is_maj7 { "maj13" }
        else if is_min_third && is_min7 { "m13" }
        else if is_min_third && is_maj7 { "m(\u{0394})13" }
        else { "13?" }
    } else if str_equal(label, "6th") {
        if is_maj_third && is_perf_fifth { "6" } else if is_min_third && is_perf_fifth { "m6" } else { "?6" }
    } else if str_equal(label, "add9") {
        if is_maj_third { "add9" } else if is_min_third { "m(add9)" } else { "add9?" }
    } else if str_equal(label, "add11") {
        if is_maj_third { "add11" } else if is_min_third { "m(add11)" } else { "add11?" }
    } else if str_equal(label, "sus4") {
        let fourth: u8 = match interval_for(scale, degree, structure, 3, root_interval) {
            Some(v) => v,
            None => 0,
        };
        if fourth == 5 && is_perf_fifth { "sus4" }
        else if fourth == 6 && is_perf_fifth { "sus\u{266F}4" }
        else { "sus4?" }
    } else if str_equal(label, "sus2") {
        let second: u8 = match interval_for(scale, degree, structure, 1, root_interval) {
            Some(v) => v,
            None => 0,
        };
        if second == 2 && is_perf_fifth { "sus2" }
        else if second == 1 && is_perf_fifth { "sus\u{266D}2" }
        else { "sus2?" }
    } else {
        "?"
    };
    let mut symbol = String::from_str(note_name(chord_root as usize));
    symbol.append(suffix);
    symbol
}


/// A voicing candidate on one string: (fret, index of the chord tone it sounds).
pub type Candidate = (usize, usize);

/// Pitch classes of the chord tones, in the structure's order.
pub open spec fn spec_chord_tones(root: u8, intervals: Seq<u8>, degree: int, offsets: Seq<usize>) -> Seq<u8> {
    Seq::new(offsets.len(), |k: int| ((root as int + intervals[(degree + offsets[k]) % (intervals.len() as int)] as int) % 12) as u8)
}

/// Index of the first chord tone equal to `note`, searching from `from`.
pub open spec fn first_tone_from(tones: Seq<u8>, note: u8, from: int) -> Option<usize>
    decreases tones.len() - from,
{
    if from < 0 || from >= tones.len() {
        None
    } else if tones[from] == note {
        Some(from as usize)
    } else {
        first_tone_from(tones, note, from + 1)
    }
}

pub open spec fn tone_index_of(tones: Seq<u8>, note: u8) -> Option<usize> {
    first_tone_from(tones, note, 0)
}

/// Lowest fret of the five-fret window around `center`.
pub open spec fn window_low(center: usize) -> usize {
    if center >= 2 { (center - 2) as usize } else { 0 }
}

/// Highest fret of the window around `center`, never past the last fret.
pub open spec fn window_high(center: usize) -> usize {
    if center + 3 < NUM_FRETS { (center + 3) as usize } else { NUM_FRETS }
}

pub open spec fn fret_if_in_window(fret: int, low: usize, high: usize) -> Seq<usize> {
    if low <= fret <= high { seq![fret as usize] } else { Seq::empty() }
}

/// The frets at distance `distance` from the center, lower fret first.
pub open spec fn frets_at_distance(center: usize, distance: int, low: usize, high: usize) -> Seq<usize> {
    if distance == 0 {
        fret_if_in_window(center as int, low, high)
    } else {
        fret_if_in_window(center - distance, low, high) + fret_if_in_window(center + distance, low, high)
    }
}

/// The frets of the window ordered by closeness to the center, the lower
/// fret first among equally close ones.
pub open spec fn fret_order(center: usize) -> Seq<usize> {
    let low = window_low(center);
    let high = window_high(center);
    frets_at_distance(center, 0, low, high) + frets_at_distance(center, 1, low, high)
        + frets_at_distance(center, 2, low, high) + frets_at_distance(center, 3, low, high)
}

/// The candidates of a string: the frets of `order` whose pitch is a chord
/// tone, each with the first matching tone index, in the order of `order`.
pub open spec fn string_candidates(open: u8, tones: Seq<u8>, order: Seq<usize>) -> Seq<Candidate>
    decreases order.len(),
{
    if order.len() == 0 {
        Seq::empty()
    } else {
        let fret = order.last();
        let earlier = string_candidates(open, tones, order.drop_last());
        match tone_index_of(tones, ((open as int + fret as int) % 12) as u8) {
            Some(tone) => earlier.push((fret, tone)),
            None => earlier,
        }
    }
}

/// Candidates of all six strings (physical order: low E first).
pub open spec fn all_candidates(tones: Seq<u8>, center: usize) -> Seq<Seq<Candidate>> {
    Seq::new(6, |string: int| string_candidates(spec_standard_tuning(string), tones, fret_order(center)))
}

/// First candidate sounding chord tone `tone`, searching from `from`.
pub open spec fn first_with_tone(candidates: Seq<Candidate>, tone: usize, from: int) -> Option<Candidate>
    decreases candidates.len() - from,
{
    if from < 0 || from >= candidates.len() {
        None
    } else if candidates[from].1 == tone {
        Some(candidates[from])
    } else {
        first_with_tone(candidates, tone, from + 1)
    }
}

/// The bass choice: the lowest string (from `string` on) that can sound the
/// target tone, with its closest candidate for it.
pub open spec fn bass_choice(all: Seq<Seq<Candidate>>, target: usize, string: int) -> Option<(int, Candidate)>
    decreases 6 - string,
{
    if string < 0 || string >= 6 {
        None
    } else {
        match first_with_tone(all[string], target, 0) {
            Some(candidate) => Some((string, candidate)),
            None => bass_choice(all, target, string + 1),
        }
    }
}

/// First candidate whose tone is not used yet, searching from `from`.
pub open spec fn first_unused(candidates: Seq<Candidate>, used: Seq<bool>, from: int) -> Option<Candidate>
    decreases candidates.len() - from,
{
    if from < 0 || from >= candidates.len() {
        None
    } else if !used[candidates[from].1 as int] {
        Some(candidates[from])
    } else {
        first_unused(candidates, used, from + 1)
    }
}

pub open spec fn is_bass_string(bass: Option<(int, Candidate)>, string: int) -> bool {
    match bass { Some(choice) => choice.0 == string, None => false }
}

/// A string lower than the bass string: it stays silent, so that the bass
/// tone is the lowest note of the voicing.
pub open spec fn below_bass(bass: Option<(int, Candidate)>, string: int) -> bool {
    match bass { Some(choice) => string < choice.0, None => false }
}

pub open spec fn bass_candidate(bass: Option<(int, Candidate)>) -> Candidate {
    match bass { Some(choice) => choice.1, None => (0, 0) }
}

/// Assignments of strings `string..6`: the bass string keeps its bass
/// candidate; the strings below it stay silent; every other string with
/// candidates takes the first one with an unused tone, else its closest one.
pub open spec fn fill_strings(all: Seq<Seq<Candidate>>, bass: Option<(int, Candidate)>, string: int, used: Seq<bool>) -> Seq<Option<Candidate>>
    decreases 6 - string,
{
    if string < 0 || string >= 6 {
        Seq::empty()
    } else if is_bass_string(bass, string) {
        seq![Some(bass_candidate(bass))] + fill_strings(all, bass, string + 1, used)
    } else if below_bass(bass, string) || all[string].len() == 0 {
        seq![None] + fill_strings(all, bass, string + 1, used)
    } else {
        let choice = match first_unused(all[string], used, 0) {
            Some(candidate) => candidate,
            None => all[string][0],
        };
        seq![Some(choice)] + fill_strings(all, bass, string + 1, used.update(choice.1 as int, true))
    }
}

pub open spec fn initial_used(tone_count: nat, bass: Option<(int, Candidate)>) -> Seq<bool> {
    let none_used = Seq::new(tone_count, |i: int| false);
    match bass {
        Some((_, candidate)) => none_used.update(candidate.1 as int, true),
        None => none_used,
    }
}

/// The candidate assigned to each physical string (low E first).
pub open spec fn spec_assignment(tones: Seq<u8>, center: usize, inversion: usize) -> Seq<Option<Candidate>> {
    let all = all_candidates(tones, center);
    let bass = bass_choice(all, ((inversion as int) % (tones.len() as int)) as usize, 0);
    fill_strings(all, bass, 0, initial_used(tones.len(), bass))
}

/// A voicing note as plain values: (string index, fret, label).
pub open spec fn note_view(note: VoicingNote) -> (usize, usize, Seq<char>) {
    (note.string_index, note.fret, note.label@)
}

/// The notes produced by the first `count` string assignments, each string
/// renumbered high-to-low (high e = 0) and labelled with its tone's label.
pub open spec fn emitted_notes(assignment: Seq<Option<Candidate>>, labels: Seq<&'static str>, count: int) -> Seq<(usize, usize, Seq<char>)>
    decreases count,
{
    if count <= 0 {
        Seq::empty()
    } else {
        let earlier = emitted_notes(assignment, labels, count - 1);
        match assignment[count - 1] {
            Some(candidate) => earlier.push(((5 - (count - 1)) as usize, candidate.0, labels[candidate.1 as int]@)),
            None => earlier,
        }
    }
}

pub open spec fn spec_voicing(root: u8, scale: Scale, degree: usize, structure: ChordStructure, center: usize, inversion: usize) -> Seq<(usize, usize, Seq<char>)> {
    let tones = spec_chord_tones(root, scale.intervals@, degree as int, structure.offsets@);
    emitted_notes(spec_assignment(tones, center, inversion), structure.tone_labels@, 6)
}

pub open spec fn voicing_requires(root: u8, scale: Scale, degree: usize, structure: ChordStructure, center: usize) -> bool {
    let intervals = scale.intervals@;
    let offsets = structure.offsets@;
    &&& intervals.len() > 0
    &&& 0 < offsets.len() <= usize::MAX
    &&& structure.tone_labels@.len() >= offsets.len()
    &&& center + 3 <= usize::MAX
    &&& forall|k: int| 0 <= k < offsets.len() ==> degree + #[trigger] offsets[k] <= usize::MAX
    &&& forall|k: int| 0 <= k < offsets.len()
        ==> root as int + intervals[(degree + #[trigger] offsets[k]) % (intervals.len() as int)] as int <= u8::MAX
}

fn compute_chord_tones(root: u8, scale: &Scale, degree: usize, structure: &ChordStructure) -> (tones: Vec<u8>)
    requires
        voicing_requires(root, *scale, degree, *structure, 0),
    ensures
        tones@ == spec_chord_tones(root, scale.intervals@, degree as int, structure.offsets@),
{
    let scale_len = scale.intervals.len();
    let mut tones: Vec<u8> = Vec::new();
    let mut k: usize = 0;
    while k < structure.offsets.len()
        invariant
            voicing_requires(root, *scale, degree, *structure, 0),
            scale_len == scale.intervals@.len(),
            k <= structure.offsets@.len(),
            tones@ == spec_chord_tones(root, scale.intervals@, degree as int, structure.offsets@).take(k as int),
        decreases structure.offsets@.len() - k,
    {
        let offset = structure.offsets[k];
        assert(degree + structure.offsets@[k as int] <= usize::MAX);
        let scale_index = (degree + offset) % scale_len;
        let tone = (root + scale.intervals[scale_index]) % 12;
        tones.push(tone);
        k += 1;
        assert(tones@ =~= spec_chord_tones(root, scale.intervals@, degree as int, structure.offsets@).take(k as int));
    }
    assert(tones@ =~= spec_chord_tones(root, scale.intervals@, degree as int, structure.offsets@));
    tones
}

fn find_tone(tones: &Vec<u8>, note: u8) -> (index: Option<usize>)
    ensures
        index == tone_index_of(tones@, note),
{
    let mut k: usize = 0;
    while k < tones.len()
        invariant
            k <= tones@.len(),
            tone_index_of(tones@, note) == first_tone_from(tones@, note, k as int),
        decreases tones@.len() - k,
    {
        if tones[k] == note {
            return Some(k);
        }
        k += 1;
    }
    None
}

fn push_if_in_window(order: &mut Vec<usize>, fret: usize, low: usize, high: usize)
    ensures
        final(order)@ == old(order)@ + fret_if_in_window(fret as int, low, high),
{
    if low <= fret && fret <= high {
        order.push(fret);
    }
}

fn compute_fret_order(center: usize) -> (order: Vec<usize>)
    requires
        center + 3 <= usize::MAX,
    ensures
        order@ == fret_order(center),
{
    let low: usize = if center >= 2 { center - 2 } else { 0 };
    let high: usize = if center + 3 < NUM_FRETS { center + 3 } else { NUM_FRETS };
    let mut order: Vec<usize> = Vec::new();
    push_if_in_window(&mut order, center, low, high);
    let mut distance: usize = 1;
    while distance <= 3
        invariant
            1 <= distance <= 4,
            center + 3 <= usize::MAX,
            low == window_low(center),
            high == window_high(center),
            distance == 2 ==> order@ == frets_at_distance(center, 0, low, high) + frets_at_distance(center, 1, low, high),
            distance == 3 ==> order@ == frets_at_distance(center, 0, low, high) + frets_at_distance(center, 1, low, high)
                + frets_at_distance(center, 2, low, high),
            distance == 4 ==> order@ == fret_order(center),
            distance == 1 ==> order@ == frets_at_distance(center, 0, low, high),
        decreases 4 - distance,
    {
        if center >= distance {
            push_if_in_window(&mut order, center - distance, low, high);
        } else {
            assert(fret_if_in_window(center - distance, low, high) =~= Seq::empty());
        }
        push_if_in_window(&mut order, center + distance, low, high);
        proof {
            let d = distance as int;
            assert(frets_at_distance(center, d, low, high) == fret_if_in_window(center - d, low, high)
                + fret_if_in_window(center + d, low, high));
        }
        distance += 1;
        assert(distance == 2 ==> order@ =~= frets_at_distance(center, 0, low, high) + frets_at_distance(center, 1, low, high));
        assert(distance == 3 ==> order@ =~= frets_at_distance(center, 0, low, high) + frets_at_distance(center, 1, low, high)
                + frets_at_distance(center, 2, low, high));
        assert(distance == 4 ==> order@ =~= fret_order(center));
    }
    order
}

fn compute_string_candidates(open: u8, tones: &Vec<u8>, order: &Vec<usize>) -> (candidates: Vec<Candidate>)
    requires
        forall|i: int| 0 <= i < order@.len() ==> #[trigger] order@[i] <= NUM_FRETS,
        open <= 28,
    ensures
        candidates@ == string_candidates(open, tones@, order@),
{
    let mut candidates: Vec<Candidate> = Vec::new();
    let mut i: usize = 0;
    while i < order.len()
        invariant
            i <= order@.len(),
            open <= 28,
            forall|j: int| 0 <= j < order@.len() ==> #[trigger] order@[j] <= NUM_FRETS,
            candidates@ == string_candidates(open, tones@, order@.take(i as int)),
        decreases order@.len() - i,
    {
        let fret = order[i];
        let note = (open + fret as u8) % 12;
        assert(order@.take(i as int + 1).drop_last() =~= order@.take(i as int));
        assert(note == ((open as int + fret as int) % 12) as u8);
        match find_tone(tones, note) {
            Some(tone) => { candidates.push((fret, tone)); }
            None => {}
        }
        i += 1;
    }
    assert(order@.take(order@.len() as int) =~= order@);
    candidates
}


proof fn lemma_first_tone_bound(tones: Seq<u8>, note: u8, from: int)
    requires
        tones.len() <= usize::MAX,
    ensures
        first_tone_from(tones, note, from) matches Some(t) ==> from <= t < tones.len() && tones[t as int] == note,
    decreases tones.len() - from,
{
    if from >= 0 && from < tones.len() && tones[from] != note {
        lemma_first_tone_bound(tones, note, from + 1);
    }
}

/// Every candidate of a string sounds a chord tone at one of the ordered frets.
pub proof fn lemma_candidates_sound_chord_tones(open: u8, tones: Seq<u8>, order: Seq<usize>)
    requires
        tones.len() <= usize::MAX,
    ensures
        forall|i: int| 0 <= i < string_candidates(open, tones, order).len() ==> {
            let candidate = #[trigger] string_candidates(open, tones, order)[i];
            &&& candidate.1 < tones.len()
            &&& order.contains(candidate.0)
            &&& tones[candidate.1 as int] == ((open as int + candidate.0 as int) % 12) as u8
        },
    decreases order.len(),
{
    if order.len() > 0 {
        lemma_candidates_sound_chord_tones(open, tones, order.drop_last());
        let fret = order.last();
        lemma_first_tone_bound(tones, ((open as int + fret as int) % 12) as u8, 0);
        let cands = string_candidates(open, tones, order);
        let earlier = string_candidates(open, tones, order.drop_last());
        assert forall|i: int| 0 <= i < cands.len() implies {
            let candidate = #[trigger] cands[i];
            &&& candidate.1 < tones.len()
            &&& order.contains(candidate.0)
            &&& tones[candidate.1 as int] == ((open as int + candidate.0 as int) % 12) as u8
        } by {
            if i < earlier.len() {
                assert(cands[i] == earlier[i]);
                let k = choose|k: int| 0 <= k < order.drop_last().len() && order.drop_last()[k] == earlier[i].0;
                assert(order[k] == earlier[i].0);
            } else {
                assert(order[order.len() - 1] == fret);
            }
        }
    }
}

/// Every fret of the ordered window lies within the window and the fretboard.
pub proof fn lemma_fret_order_in_window(center: usize)
    ensures
        forall|i: int| 0 <= i < fret_order(center).len() ==> {
            let fret = #[trigger] fret_order(center)[i];
            window_low(center) <= fret <= window_high(center) && fret <= NUM_FRETS
        },
{
    let low = window_low(center);
    let high = window_high(center);
    let order = fret_order(center);
    assert forall|i: int| 0 <= i < order.len() implies {
        let fret = #[trigger] order[i];
        low <= fret <= high && fret <= NUM_FRETS
    } by {
        let p0 = frets_at_distance(center, 0, low, high);
        let p1 = frets_at_distance(center, 1, low, high);
        let p2 = frets_at_distance(center, 2, low, high);
        let p3 = frets_at_distance(center, 3, low, high);
        assert(order == p0 + p1 + p2 + p3);
        if i < p0.len() {
            assert(order[i] == p0[i]);
        } else if i < p0.len() + p1.len() {
            assert(order[i] == p1[i - p0.len()]);
        } else if i < p0.len() + p1.len() + p2.len() {
            assert(order[i] == p2[i - p0.len() - p1.len()]);
        } else {
            assert(order[i] == p3[i - p0.len() - p1.len() - p2.len()]);
        }
    }
}

fn find_with_tone(candidates: &Vec<Candidate>, tone: usize) -> (found: Option<Candidate>)
    ensures
        found == first_with_tone(candidates@, tone, 0),
{
    let mut i: usize = 0;
    while i < candidates.len()
        invariant
            i <= candidates@.len(),
            first_with_tone(candidates@, tone, 0) == first_with_tone(candidates@, tone, i as int),
        decreases candidates@.len() - i,
    {
        if candidates[i].1 == tone {
            return Some(candidates[i]);
        }
        i += 1;
    }
    None
}

fn find_unused(candidates: &Vec<Candidate>, used: &Vec<bool>) -> (found: Option<Candidate>)
    requires
        forall|i: int| 0 <= i < candidates@.len() ==> (#[trigger] candidates@[i]).1 < used@.len(),
    ensures
        found == first_unused(candidates@, used@, 0),
{
    let mut i: usize = 0;
    while i < candidates.len()
        invariant
            i <= candidates@.len(),
            forall|j: int| 0 <= j < candidates@.len() ==> (#[trigger] candidates@[j]).1 < used@.len(),
            first_unused(candidates@, used@, 0) == first_unused(candidates@, used@, i as int),
        decreases candidates@.len() - i,
    {
        if !used[candidates[i].1] {
            return Some(candidates[i]);
        }
        i += 1;
    }
    None
}

proof fn lemma_first_with_tone_is_candidate(candidates: Seq<Candidate>, tone: usize, from: int)
    ensures
        first_with_tone(candidates, tone, from) matches Some(c) ==> candidates.contains(c) && c.1 == tone,
    decreases candidates.len() - from,
{
    if from >= 0 && from < candidates.len() {
        if candidates[from].1 == tone {
            assert(candidates[from] == candidates[from]);
        } else {
            lemma_first_with_tone_is_candidate(candidates, tone, from + 1);
        }
    }
}

proof fn lemma_first_unused_is_candidate(candidates: Seq<Candidate>, used: Seq<bool>, from: int)
    ensures
        first_unused(candidates, used, from) matches Some(c) ==> candidates.contains(c),
    decreases candidates.len() - from,
{
    if from >= 0 && from < candidates.len() && used[candidates[from].1 as int] {
        lemma_first_unused_is_candidate(candidates, used, from + 1);
    }
}

proof fn lemma_bass_choice_is_candidate(all: Seq<Seq<Candidate>>, target: usize, string: int)
    requires
        all.len() == 6,
    ensures
        bass_choice(all, target, string) matches Some((s, c)) ==> string <= s < 6 && all[s].contains(c) && c.1 == target,
    decreases 6 - string,
{
    if string >= 0 && string < 6 {
        lemma_first_with_tone_is_candidate(all[string], target, 0);
        if first_with_tone(all[string], target, 0) is None {
            lemma_bass_choice_is_candidate(all, target, string + 1);
        }
    }
}

pub open spec fn bass_view(bass: Option<(usize, Candidate)>) -> Option<(int, Candidate)> {
    match bass {
        Some(choice) => Some((choice.0 as int, choice.1)),
        None => None,
    }
}

/// Generates a playable chord voicing near `center_fret`: one chord tone per
/// string within the five-fret window, the inversion's tone as the bass note
/// (on the lowest string that can play it, with no string below it sounding),
/// and every chord tone at least once where the strings allow.
pub fn generate_voicing(
    root: u8,
    scale: &Scale,
    degree: usize,
    structure: &ChordStructure,
    center_fret: usize,
    inversion: usize,
) -> (voicing: Vec<VoicingNote>)
    requires
        voicing_requires(root, *scale, degree, *structure, center_fret),
    ensures
        voicing@.map_values(|note: VoicingNote| note_view(note))
            == spec_voicing(root, *scale, degree, *structure, center_fret, inversion),
        ({
            let tones = spec_chord_tones(root, scale.intervals@, degree as int, structure.offsets@);
            let target = ((inversion as int) % (tones.len() as int)) as usize;
            let notes = voicing@.map_values(|note: VoicingNote| note_view(note));
            &&& notes_sound_chord_tones(tones, structure.tone_labels@, center_fret, notes)
            &&& bass_is_inversion_tone(tones, structure.tone_labels@, center_fret, target, notes)
            &&& strings_used_exactly(tones, center_fret, target, notes)
        }),
{
    let tones = compute_chord_tones(root, scale, degree, structure);
    let order = compute_fret_order(center_fret);
    let ghost all_view = all_candidates(tones@, center_fret);
    proof {
        lemma_fret_order_in_window(center_fret);
    }

    let mut all: Vec<Vec<Candidate>> = Vec::new();
    let mut string: usize = 0;
    while string < 6
        invariant
            string <= 6,
            order@ == fret_order(center_fret),
            forall|i: int| 0 <= i < order@.len() ==> #[trigger] order@[i] <= NUM_FRETS,
            all_view == all_candidates(tones@, center_fret),
            all@.len() == string,
            forall|j: int| 0 <= j < string ==> (#[trigger] all@[j])@ == all_view[j],
        decreases 6 - string,
    {
        let open = standard_tuning(string);
        let candidates = compute_string_candidates(open, &tones, &order);
        all.push(candidates);
        string += 1;
    }
    assert(all@.map_values(|v: Vec<Candidate>| v@) =~= all_view);

    let tone_count = tones.len();
    let bass_target = inversion % tone_count;
    proof {
        assert forall|j: int, i: int| 0 <= j < 6 && 0 <= i < all_view[j].len()
            implies (#[trigger] all_view[j][i]).1 < tone_count by {
            lemma_candidates_sound_chord_tones(spec_standard_tuning(j), tones@, fret_order(center_fret));
        }
    }

    // The bass string: the lowest one that can sound the bass target.
    let mut bass: Option<(usize, Candidate)> = None;
    let mut searching = true;
    let mut string: usize = 0;
    while searching && string < 6
        invariant
            string <= 6,
            all@.len() == 6,
            forall|j: int| 0 <= j < 6 ==> (#[trigger] all@[j])@ == all_view[j],
            searching ==> bass is None && bass_choice(all_view, bass_target, 0) == bass_choice(all_view, bass_target, string as int),
            !searching ==> bass_view(bass) == bass_choice(all_view, bass_target, 0),
        decreases 6 - string + (if searching { 1int } else { 0int }),
    {
        match find_with_tone(&all[string], bass_target) {
            Some(candidate) => {
                bass = Some((string, candidate));
                searching = false;
            }
            None => {
                string += 1;
            }
        }
    }
    let ghost bass_spec = bass_choice(all_view, bass_target, 0);
    assert(bass_view(bass) == bass_spec);
    proof {
        lemma_bass_choice_is_candidate(all_view, bass_target, 0);
    }

    let mut used: Vec<bool> = Vec::new();
    let mut k: usize = 0;
    while k < tone_count
        invariant
            k <= tone_count,
            used@ == Seq::new(k as nat, |i: int| false),
        decreases tone_count - k,
    {
        used.push(false);
        k += 1;
        assert(used@ =~= Seq::new(k as nat, |i: int| false));
    }
    let mut assigned: Vec<Option<Candidate>> = Vec::new();
    let mut k: usize = 0;
    while k < 6
        invariant
            k <= 6,
            assigned@ == Seq::new(k as nat, |i: int| None::<Candidate>),
        decreases 6 - k,
    {
        assigned.push(None);
        k += 1;
        assert(assigned@ =~= Seq::new(k as nat, |i: int| None::<Candidate>));
    }
    match bass {
        Some((bass_string, candidate)) => {
            used.set(candidate.1, true);
            assigned.set(bass_string, Some(candidate));
        }
        None => {}
    }
    proof {
        if bass_spec is Some {
            let (bs, bc) = bass_spec.unwrap();
            let i = choose|i: int| 0 <= i < all_view[bs].len() && all_view[bs][i] == bc;
            assert(all_view[bs][i].1 < tone_count);
        }
    }
    let bass_string: usize = match bass {
        Some((s, _)) => s,
        None => 0,
    };
    let ghost used0 = used@;
    assert(used0 =~= initial_used(tone_count as nat, bass_spec));

    // Fill the other strings, preferring chord tones not used yet.
    let mut string: usize = 0;
    while string < 6
        invariant
            string <= 6,
            all@.len() == 6,
            forall|j: int| 0 <= j < 6 ==> (#[trigger] all@[j])@ == all_view[j],
            forall|j: int, i: int| 0 <= j < 6 && 0 <= i < all_view[j].len() ==> (#[trigger] all_view[j][i]).1 < tone_count,
            used@.len() == tone_count,
            assigned@.len() == 6,
            bass_string == (match bass_spec { Some(choice) => choice.0, None => 0 }),
            forall|j: int| 0 <= j < 6 ==> ((#[trigger] assigned@[j]) matches Some(c) ==> c.1 < tone_count),
            forall|j: int| string <= j < 6 ==> #[trigger] assigned@[j] == (if is_bass_string(bass_spec, j) {
                Some(bass_candidate(bass_spec))
            } else {
                None
            }),
            fill_strings(all_view, bass_spec, 0, used0)
                == assigned@.take(string as int) + fill_strings(all_view, bass_spec, string as int, used@),
        decreases 6 - string,
    {
        let ghost before = assigned@;
        let ghost used_before = used@;
        if assigned[string].is_some() {
            assert(is_bass_string(bass_spec, string as int));
        } else if string < bass_string {
            assert(below_bass(bass_spec, string as int));
        } else {
            assert(!is_bass_string(bass_spec, string as int));
            assert(!below_bass(bass_spec, string as int));
            let candidates = &all[string];
            if candidates.len() > 0 {
                let choice = match find_unused(candidates, &used) {
                    Some(candidate) => candidate,
                    None => candidates[0],
                };
                proof {
                    lemma_first_unused_is_candidate(all_view[string as int], used@, 0);
                    let i = choose|i: int| 0 <= i < all_view[string as int].len() && all_view[string as int][i] == choice;
                    assert(all_view[string as int][i].1 < tone_count);
                }
                used.set(choice.1, true);
                assigned.set(string, Some(choice));
            }
        }
        assert(assigned@.take(string as int + 1) =~= before.take(string as int).push(assigned@[string as int]));
        assert(forall|j: int| string < j < 6 ==> assigned@[j] == before[j]);
        string += 1;
    }
    assert(assigned@.take(6) =~= assigned@);
    assert(fill_strings(all_view, bass_spec, 6, used@) =~= Seq::empty());
    assert(assigned@ == spec_assignment(tones@, center_fret, inversion));

    // Emit the notes, renumbering strings from the high e down.
    let mut voicing: Vec<VoicingNote> = Vec::new();
    let mut string: usize = 0;
    while string < 6
        invariant
            string <= 6,
            assigned@.len() == 6,
            tone_count <= structure.tone_labels@.len(),
            forall|j: int| 0 <= j < 6 ==> ((#[trigger] assigned@[j]) matches Some(c) ==> c.1 < tone_count),
            voicing@.map_values(|note: VoicingNote| note_view(note)) == emitted_notes(assigned@, structure.tone_labels@, string as int),
        decreases 6 - string,
    {
        match assigned[string] {
            Some(candidate) => {
                let label = String::from_str(structure.tone_labels[candidate.1]);
                voicing.push(VoicingNote { string_index: 5 - string, fret: candidate.0, label });
            }
            None => {}
        }
        string += 1;
        assert(voicing@.map_values(|note: VoicingNote| note_view(note)) =~= emitted_notes(assigned@, structure.tone_labels@, string as int));
    }
    proof {
        lemma_voicing_shape(root, *scale, degree, *structure, center_fret, inversion);
        lemma_voicing_bass(root, *scale, degree, *structure, center_fret, inversion);
        lemma_voicing_strings(root, *scale, degree, *structure, center_fret, inversion);
    }
    voicing
}


proof fn lemma_fill_from_candidates(all: Seq<Seq<Candidate>>, bass: Option<(int, Candidate)>, string: int, used: Seq<bool>)
    requires
        all.len() == 6,
        0 <= string <= 6,
        bass matches Some((bs, bc)) ==> 0 <= bs < 6 && all[bs].contains(bc),
    ensures
        fill_strings(all, bass, string, used).len() == 6 - string,
        forall|k: int| 0 <= k < 6 - string ==>
            ((#[trigger] fill_strings(all, bass, string, used)[k]) matches Some(c) ==> all[string + k].contains(c)),
    decreases 6 - string,
{
    if string < 6 {
        let filled = fill_strings(all, bass, string, used);
        if is_bass_string(bass, string) {
            lemma_fill_from_candidates(all, bass, string + 1, used);
            assert forall|k: int| 0 <= k < 6 - string implies
                ((#[trigger] filled[k]) matches Some(c) ==> all[string + k].contains(c)) by {
                if k > 0 {
                    assert(filled[k] == fill_strings(all, bass, string + 1, used)[k - 1]);
                }
            }
        } else if below_bass(bass, string) || all[string].len() == 0 {
            lemma_fill_from_candidates(all, bass, string + 1, used);
            assert forall|k: int| 0 <= k < 6 - string implies
                ((#[trigger] filled[k]) matches Some(c) ==> all[string + k].contains(c)) by {
                if k > 0 {
                    assert(filled[k] == fill_strings(all, bass, string + 1, used)[k - 1]);
                }
            }
        } else {
            let choice = match first_unused(all[string], used, 0) {
                Some(candidate) => candidate,
                None => all[string][0],
            };
            lemma_first_unused_is_candidate(all[string], used, 0);
            let next_used = used.update(choice.1 as int, true);
            lemma_fill_from_candidates(all, bass, string + 1, next_used);
            assert forall|k: int| 0 <= k < 6 - string implies
                ((#[trigger] filled[k]) matches Some(c) ==> all[string + k].contains(c)) by {
                if k > 0 {
                    assert(filled[k] == fill_strings(all, bass, string + 1, next_used)[k - 1]);
                } else {
                    assert(all[string][0] == all[string][0]);
                }
            }
        }
    }
}

proof fn lemma_emitted_strings(assignment: Seq<Option<Candidate>>, labels: Seq<&'static str>, count: int)
    requires
        0 <= count <= assignment.len() <= 6,
    ensures
        emitted_notes(assignment, labels, count).len() <= count,
        forall|i: int| 0 <= i < emitted_notes(assignment, labels, count).len() ==> {
            let note = #[trigger] emitted_notes(assignment, labels, count)[i];
            let physical = 5 - note.0;
            &&& 0 <= physical < count
            &&& note.0 < 6
            &&& assignment[physical] matches Some(c) && note.1 == c.0 && note.2 == labels[c.1 as int]@
        },
        forall|i: int, j: int| 0 <= i < j < emitted_notes(assignment, labels, count).len() ==>
            (#[trigger] emitted_notes(assignment, labels, count)[i]).0 > (#[trigger] emitted_notes(assignment, labels, count)[j]).0,
    decreases count,
{
    if count > 0 {
        lemma_emitted_strings(assignment, labels, count - 1);
    }
}

/// The shape every voicing has: at most six notes, one per string and in
/// string order, each at a fret of the window around the center, each
/// sounding the chord tone whose label it carries.
pub proof fn lemma_voicing_shape(root: u8, scale: Scale, degree: usize, structure: ChordStructure, center: usize, inversion: usize)
    requires
        voicing_requires(root, scale, degree, structure, center),
    ensures
        notes_sound_chord_tones(
            spec_chord_tones(root, scale.intervals@, degree as int, structure.offsets@),
            structure.tone_labels@,
            center,
            spec_voicing(root, scale, degree, structure, center, inversion),
        ),
{
    let tones = spec_chord_tones(root, scale.intervals@, degree as int, structure.offsets@);
    let all = all_candidates(tones, center);
    let bass = bass_choice(all, ((inversion as int) % (tones.len() as int)) as usize, 0);
    let assignment = spec_assignment(tones, center, inversion);
    lemma_bass_choice_is_candidate(all, ((inversion as int) % (tones.len() as int)) as usize, 0);
    lemma_fill_from_candidates(all, bass, 0, initial_used(tones.len(), bass));
    lemma_emitted_strings(assignment, structure.tone_labels@, 6);
    lemma_fret_order_in_window(center);
    let notes = spec_voicing(root, scale, degree, structure, center, inversion);
    assert forall|i: int| 0 <= i < notes.len() implies {
        let note = #[trigger] notes[i];
        &&& note.0 < 6
        &&& window_low(center) <= note.1 <= window_high(center)
        &&& match tone_index_of(tones, pitch_class_at(5 - note.0, note.1 as int)) {
            Some(t) => note.2 == structure.tone_labels@[t as int]@,
            None => false,
        }
    } by {
        let note = notes[i];
        let physical = 5 - note.0;
        let c = assignment[physical].unwrap();
        assert(all[physical].contains(c));
        lemma_candidates_exact(spec_standard_tuning(physical), tones, fret_order(center));
        let k = choose|k: int| 0 <= k < all[physical].len() && all[physical][k] == c;
        assert(all[physical][k] == c);
        let f = choose|f: int| 0 <= f < fret_order(center).len() && fret_order(center)[f] == c.0;
        assert(fret_order(center)[f] == c.0);
        assert(tone_index_of(tones, pitch_class_at(physical, c.0 as int)) == Some(c.1));
    }
}

proof fn lemma_fill_len(all: Seq<Seq<Candidate>>, bass: Option<(int, Candidate)>, string: int, used: Seq<bool>)
    requires
        0 <= string <= 6,
    ensures
        fill_strings(all, bass, string, used).len() == 6 - string,
    decreases 6 - string,
{
    if string < 6 {
        if is_bass_string(bass, string) || below_bass(bass, string) || all[string].len() == 0 {
            lemma_fill_len(all, bass, string + 1, used);
        } else {
            let choice = match first_unused(all[string], used, 0) {
                Some(candidate) => candidate,
                None => all[string][0],
            };
            lemma_fill_len(all, bass, string + 1, used.update(choice.1 as int, true));
        }
    }
}

proof fn lemma_fill_keeps_bass(all: Seq<Seq<Candidate>>, bass: Option<(int, Candidate)>, string: int, used: Seq<bool>)
    requires
        0 <= string <= 6,
        bass matches Some((bs, bc)) && string <= bs < 6,
    ensures
        fill_strings(all, bass, string, used)[bass.unwrap().0 - string] == Some(bass.unwrap().1),
    decreases 6 - string,
{
    let (bs, bc) = bass.unwrap();
    let filled = fill_strings(all, bass, string, used);
    if string < bs {
        assert(!is_bass_string(bass, string));
        assert(below_bass(bass, string));
        lemma_fill_keeps_bass(all, bass, string + 1, used);
        lemma_fill_len(all, bass, string + 1, used);
        assert(filled[bs - string] == fill_strings(all, bass, string + 1, used)[bs - string - 1]);
    } else {
        assert(is_bass_string(bass, string));
        assert(filled[0] == Some(bc));
    }
}

proof fn lemma_emitted_contains(assignment: Seq<Option<Candidate>>, labels: Seq<&'static str>, count: int, physical: int)
    requires
        0 <= physical < count <= assignment.len() <= 6,
        assignment[physical] is Some,
    ensures
        emitted_notes(assignment, labels, count).contains(
            ((5 - physical) as usize, assignment[physical].unwrap().0, labels[assignment[physical].unwrap().1 as int]@)),
    decreases count,
{
    let entry = ((5 - physical) as usize, assignment[physical].unwrap().0, labels[assignment[physical].unwrap().1 as int]@);
    let notes = emitted_notes(assignment, labels, count);
    if physical < count - 1 {
        lemma_emitted_contains(assignment, labels, count - 1, physical);
        let earlier = emitted_notes(assignment, labels, count - 1);
        let i = choose|i: int| 0 <= i < earlier.len() && earlier[i] == entry;
        assert(notes[i] == entry);
    } else {
        assert(notes[notes.len() - 1] == entry);
    }
}

/// The inversion's tone is the bass: where some string can sound the tone
/// `inversion % tone count` inside the window, the voicing's lowest note is
/// that tone, on the lowest string that can sound it.
pub proof fn lemma_voicing_bass(root: u8, scale: Scale, degree: usize, structure: ChordStructure, center: usize, inversion: usize)
    requires
        voicing_requires(root, scale, degree, structure, center),
    ensures
        ({
            let tones = spec_chord_tones(root, scale.intervals@, degree as int, structure.offsets@);
            bass_is_inversion_tone(tones, structure.tone_labels@, center,
                ((inversion as int) % (tones.len() as int)) as usize,
                spec_voicing(root, scale, degree, structure, center, inversion))
        }),
{
    let tones = spec_chord_tones(root, scale.intervals@, degree as int, structure.offsets@);
    let target = ((inversion as int) % (tones.len() as int)) as usize;
    let all = all_candidates(tones, center);
    let bass = bass_choice(all, target, 0);
    let assignment = spec_assignment(tones, center, inversion);
    let notes = spec_voicing(root, scale, degree, structure, center, inversion);
    lemma_bass_choice_is_candidate(all, target, 0);
    lemma_bass_choice_lowest(all, target, 0);
    if exists|s: int| 0 <= s < 6 && #[trigger] can_sound_tone(tones, center, s, target) {
        let s = choose|s: int| 0 <= s < 6 && #[trigger] can_sound_tone(tones, center, s, target);
        lemma_string_can_sound(tones, center, s, target);
        assert(bass is Some);
        let (bs, bc) = bass.unwrap();
        let used0 = initial_used(tones.len(), bass);
        lemma_fill_keeps_bass(all, bass, 0, used0);
        lemma_fill_len(all, bass, 0, used0);
        assert forall|j: int| 0 <= j < bs implies (#[trigger] assignment[j]) is None by {
            lemma_fill_slot(all, bass, 0, used0, j);
        }
        lemma_emitted_first(assignment, structure.tone_labels@, 6, bs);
        let open = spec_standard_tuning(bs);
        lemma_candidates_exact(open, tones, fret_order(center));
        let k = choose|k: int| 0 <= k < all[bs].len() && all[bs][k] == bc;
        assert(all[bs][k] == bc);
        assert(notes[0].0 == 5 - bs);
        assert(tone_index_of(tones, pitch_class_at(bs, bc.0 as int)) == Some(target));
        assert forall|lower: int| 0 <= lower < 5 - notes[0].0 implies !#[trigger] can_sound_tone(tones, center, lower, target) by {
            lemma_string_can_sound(tones, center, lower, target);
        }
    }
}

/// Which strings a voicing uses: a string carries a note exactly when some
/// fret of the window lets it sound a chord tone and it does not lie below
/// the lowest string that can sound the inversion's tone.
pub proof fn lemma_voicing_strings(root: u8, scale: Scale, degree: usize, structure: ChordStructure, center: usize, inversion: usize)
    requires
        voicing_requires(root, scale, degree, structure, center),
    ensures
        ({
            let tones = spec_chord_tones(root, scale.intervals@, degree as int, structure.offsets@);
            strings_used_exactly(tones, center, ((inversion as int) % (tones.len() as int)) as usize,
                spec_voicing(root, scale, degree, structure, center, inversion))
        }),
{
    let tones = spec_chord_tones(root, scale.intervals@, degree as int, structure.offsets@);
    let target = ((inversion as int) % (tones.len() as int)) as usize;
    let all = all_candidates(tones, center);
    let bass = bass_choice(all, target, 0);
    let assignment = spec_assignment(tones, center, inversion);
    let notes = spec_voicing(root, scale, degree, structure, center, inversion);
    let used0 = initial_used(tones.len(), bass);
    lemma_bass_choice_is_candidate(all, target, 0);
    lemma_bass_choice_lowest(all, target, 0);
    lemma_fill_len(all, bass, 0, used0);
    assert forall|s: int| 0 <= s < 6 implies (
        (exists|i: int| 0 <= i < notes.len() && (#[trigger] notes[i]).0 == 5 - s)
            <==> (#[trigger] can_sound_chord(tones, center, s) && !below_lowest_bass_string(tones, center, target, s))) by {
        lemma_emitted_used(assignment, structure.tone_labels@, s);
        lemma_fill_slot(all, bass, 0, used0, s);
        lemma_string_can_sound(tones, center, s, target);
        assert forall|b: int| 0 <= b < 6 implies
            (first_with_tone(all[b], target, 0) is Some <==> #[trigger] can_sound_tone(tones, center, b, target)) by {
            lemma_string_can_sound(tones, center, b, target);
        }
        match bass {
            Some((bs, bc)) => {
                assert(can_sound_tone(tones, center, bs, target)) by {
                    lemma_first_with_tone_is_candidate(all[bs], target, 0);
                    lemma_first_with_tone_found(all[bs], target, 0);
                    assert(first_with_tone(all[bs], target, 0) is Some) by {
                        let k = choose|k: int| 0 <= k < all[bs].len() && all[bs][k] == bc;
                        assert(all[bs][k].1 == target);
                    }
                }
                if s == bs {
                    lemma_string_can_sound(tones, center, bs, target);
                    assert(all[bs].len() > 0) by {
                        let k = choose|k: int| 0 <= k < all[bs].len() && all[bs][k] == bc;
                    }
                }
                if s < bs {
                    assert(below_lowest_bass_string(tones, center, target, s));
                } else {
                    assert(!below_lowest_bass_string(tones, center, target, s));
                }
            }
            None => {
                assert(!below_lowest_bass_string(tones, center, target, s));
            }
        }
    }
}

proof fn lemma_bass_choice_lowest(all: Seq<Seq<Candidate>>, target: usize, string: int)
    requires
        0 <= string <= 6,
    ensures
        bass_choice(all, target, string) matches Some((s, c)) ==>
            forall|lower: int| string <= lower < s ==> first_with_tone(#[trigger] all[lower], target, 0) is None,
        bass_choice(all, target, string) is None ==>
            forall|lower: int| string <= lower < 6 ==> first_with_tone(#[trigger] all[lower], target, 0) is None,
    decreases 6 - string,
{
    if string < 6 && first_with_tone(all[string], target, 0) is None {
        lemma_bass_choice_lowest(all, target, string + 1);
    }
}

/// Pitch class that physical string `string` (low E first) sounds at `fret`.
pub open spec fn pitch_class_at(string: int, fret: int) -> u8 {
    ((spec_standard_tuning(string) as int + fret) % 12) as u8
}

/// Some fret of the window around `center` lets physical string `string`
/// sound chord tone `tone` (the first chord tone of that pitch class).
pub open spec fn can_sound_tone(tones: Seq<u8>, center: usize, string: int, tone: usize) -> bool {
    exists|fret: int| window_low(center) <= fret <= window_high(center)
        && #[trigger] tone_index_of(tones, pitch_class_at(string, fret)) == Some(tone)
}

/// Some fret of the window around `center` lets physical string `string`
/// sound one of the chord tones.
pub open spec fn can_sound_chord(tones: Seq<u8>, center: usize, string: int) -> bool {
    exists|fret: int| window_low(center) <= fret <= window_high(center)
        && (#[trigger] tone_index_of(tones, pitch_class_at(string, fret))) is Some
}

/// Physical string `string` lies below the lowest string that can sound the
/// bass tone `target`.
pub open spec fn below_lowest_bass_string(tones: Seq<u8>, center: usize, target: usize, string: int) -> bool {
    &&& exists|b: int| string < b < 6 && #[trigger] can_sound_tone(tones, center, b, target)
    &&& forall|b: int| 0 <= b <= string ==> !#[trigger] can_sound_tone(tones, center, b, target)
}

/// At most six notes, from the lowest string up, one per string; each inside
/// the window and sounding the chord tone whose label it carries.
pub open spec fn notes_sound_chord_tones(tones: Seq<u8>, labels: Seq<&'static str>, center: usize, notes: Seq<(usize, usize, Seq<char>)>) -> bool {
    &&& notes.len() <= 6
    &&& forall|i: int, j: int| 0 <= i < j < notes.len() ==> (#[trigger] notes[i]).0 > (#[trigger] notes[j]).0
    &&& forall|i: int| 0 <= i < notes.len() ==> {
        let note = #[trigger] notes[i];
        &&& note.0 < 6
        &&& window_low(center) <= note.1 <= window_high(center)
        &&& match tone_index_of(tones, pitch_class_at(5 - note.0, note.1 as int)) {
            Some(t) => note.2 == labels[t as int]@,
            None => false,
        }
    }
}

/// Where some string can sound the bass tone `target`, the lowest note of the
/// voicing (its first) is that tone, on the lowest string that can sound it.
pub open spec fn bass_is_inversion_tone(tones: Seq<u8>, labels: Seq<&'static str>, center: usize, target: usize, notes: Seq<(usize, usize, Seq<char>)>) -> bool {
    (exists|s: int| 0 <= s < 6 && #[trigger] can_sound_tone(tones, center, s, target)) ==> {
        &&& notes.len() > 0
        &&& notes[0].2 == labels[target as int]@
        &&& tone_index_of(tones, pitch_class_at(5 - notes[0].0, notes[0].1 as int)) == Some(target)
        &&& forall|s: int| 0 <= s < 5 - notes[0].0 ==> !#[trigger] can_sound_tone(tones, center, s, target)
    }
}

/// A string carries a note exactly when it can sound a chord tone inside the
/// window and does not lie below the lowest string that can sound the bass tone.
pub open spec fn strings_used_exactly(tones: Seq<u8>, center: usize, target: usize, notes: Seq<(usize, usize, Seq<char>)>) -> bool {
    forall|s: int| 0 <= s < 6 ==> (
        (exists|i: int| 0 <= i < notes.len() && (#[trigger] notes[i]).0 == 5 - s)
            <==> (#[trigger] can_sound_chord(tones, center, s) && !below_lowest_bass_string(tones, center, target, s)))
}

proof fn lemma_concat_contains(a: Seq<usize>, b: Seq<usize>, x: usize)
    ensures
        a.contains(x) ==> (a + b).contains(x),
        b.contains(x) ==> (a + b).contains(x),
{
    if a.contains(x) {
        let i = choose|i: int| 0 <= i < a.len() && a[i] == x;
        assert((a + b)[i] == x);
    }
    if b.contains(x) {
        let i = choose|i: int| 0 <= i < b.len() && b[i] == x;
        assert((a + b)[a.len() + i] == x);
    }
}

/// Every fret of the window around the center is in the fret order.
proof fn lemma_fret_order_complete(center: usize)
    ensures
        forall|fret: int| window_low(center) <= fret <= window_high(center) ==> #[trigger] fret_order(center).contains(fret as usize),
{
    let low = window_low(center);
    let high = window_high(center);
    assert forall|fret: int| low <= fret <= high implies #[trigger] fret_order(center).contains(fret as usize) by {
        let p0 = frets_at_distance(center, 0, low, high);
        let p1 = frets_at_distance(center, 1, low, high);
        let p2 = frets_at_distance(center, 2, low, high);
        let p3 = frets_at_distance(center, 3, low, high);
        let d: int = if fret >= center { fret - center } else { center - fret };
        let x = fret as usize;
        assert(fret_if_in_window(fret, low, high) == seq![x]);
        assert(seq![x][0] == x);
        if d == 0 {
            assert(p0.contains(x));
        } else {
            let minus = fret_if_in_window(center - d, low, high);
            let plus = fret_if_in_window(center + d, low, high);
            lemma_concat_contains(minus, plus, x);
            if d == 1 { assert(p1.contains(x)); }
            else if d == 2 { assert(p2.contains(x)); }
            else { assert(d == 3); assert(p3.contains(x)); }
        }
        lemma_concat_contains(p0, p1, x);
        lemma_concat_contains(p0 + p1, p2, x);
        lemma_concat_contains(p0 + p1 + p2, p3, x);
    }
}

/// The candidates of a string are exactly the ordered frets that sound a
/// chord tone, each with the first chord tone of its pitch class.
proof fn lemma_candidates_exact(open: u8, tones: Seq<u8>, order: Seq<usize>)
    ensures
        forall|i: int| 0 <= i < string_candidates(open, tones, order).len() ==> {
            let c = #[trigger] string_candidates(open, tones, order)[i];
            &&& order.contains(c.0)
            &&& tone_index_of(tones, ((open as int + c.0 as int) % 12) as u8) == Some(c.1)
        },
        forall|f: int| 0 <= f < order.len()
            && (#[trigger] tone_index_of(tones, ((open as int + order[f] as int) % 12) as u8)) is Some
            ==> string_candidates(open, tones, order).contains(
                (order[f], tone_index_of(tones, ((open as int + order[f] as int) % 12) as u8).unwrap())),
    decreases order.len(),
{
    if order.len() > 0 {
        let prev = order.drop_last();
        lemma_candidates_exact(open, tones, prev);
        let cands = string_candidates(open, tones, order);
        let earlier = string_candidates(open, tones, prev);
        assert forall|i: int| 0 <= i < cands.len() implies {
            let c = #[trigger] cands[i];
            &&& order.contains(c.0)
            &&& tone_index_of(tones, ((open as int + c.0 as int) % 12) as u8) == Some(c.1)
        } by {
            if i < earlier.len() {
                assert(cands[i] == earlier[i]);
                let k = choose|k: int| 0 <= k < prev.len() && prev[k] == earlier[i].0;
                assert(order[k] == prev[k]);
            } else {
                assert(order[order.len() - 1] == order.last());
            }
        }
        assert forall|f: int| 0 <= f < order.len()
            && (#[trigger] tone_index_of(tones, ((open as int + order[f] as int) % 12) as u8)) is Some
            implies cands.contains((order[f], tone_index_of(tones, ((open as int + order[f] as int) % 12) as u8).unwrap())) by {
            let entry = (order[f], tone_index_of(tones, ((open as int + order[f] as int) % 12) as u8).unwrap());
            if f < order.len() - 1 {
                assert(prev[f] == order[f]);
                assert(tone_index_of(tones, ((open as int + prev[f] as int) % 12) as u8) is Some);
                let k = choose|k: int| 0 <= k < earlier.len() && earlier[k] == entry;
                assert(cands[k] == earlier[k]);
            } else {
                assert(cands[cands.len() - 1] == entry);
            }
        }
    }
}

proof fn lemma_first_with_tone_found(candidates: Seq<Candidate>, tone: usize, from: int)
    requires
        0 <= from,
    ensures
        first_with_tone(candidates, tone, from) is Some
            <==> exists|i: int| from <= i < candidates.len() && (#[trigger] candidates[i]).1 == tone,
    decreases candidates.len() - from,
{
    if from < candidates.len() && candidates[from].1 != tone {
        lemma_first_with_tone_found(candidates, tone, from + 1);
        if exists|i: int| from <= i < candidates.len() && (#[trigger] candidates[i]).1 == tone {
            let i = choose|i: int| from <= i < candidates.len() && (#[trigger] candidates[i]).1 == tone;
            assert(from + 1 <= i);
        }
    }
}

/// What the candidates of a string say about the window: the string has a
/// candidate for a tone exactly when it can sound that tone, and has
/// candidates at all exactly when it can sound a chord tone.
proof fn lemma_string_can_sound(tones: Seq<u8>, center: usize, string: int, tone: usize)
    requires
        0 <= string < 6,
    ensures
        first_with_tone(all_candidates(tones, center)[string], tone, 0) is Some <==> can_sound_tone(tones, center, string, tone),
        all_candidates(tones, center)[string].len() > 0 <==> can_sound_chord(tones, center, string),
{
    let open = spec_standard_tuning(string);
    let order = fret_order(center);
    let cands = string_candidates(open, tones, order);
    assert(all_candidates(tones, center)[string] == cands);
    lemma_candidates_exact(open, tones, order);
    lemma_fret_order_in_window(center);
    lemma_fret_order_complete(center);
    lemma_first_with_tone_found(cands, tone, 0);
    if first_with_tone(cands, tone, 0) is Some {
        let i = choose|i: int| 0 <= i < cands.len() && (#[trigger] cands[i]).1 == tone;
        let c = cands[i];
        let f = choose|f: int| 0 <= f < order.len() && order[f] == c.0;
        assert(order[f] == c.0);
        assert(tone_index_of(tones, pitch_class_at(string, c.0 as int)) == Some(tone));
    }
    if can_sound_tone(tones, center, string, tone) {
        let fret = choose|fret: int| window_low(center) <= fret <= window_high(center)
            && #[trigger] tone_index_of(tones, pitch_class_at(string, fret)) == Some(tone);
        assert(order.contains(fret as usize));
        let f = choose|f: int| 0 <= f < order.len() && order[f] == fret as usize;
        assert(order[f] as int == fret);
        assert(((open as int + order[f] as int) % 12) as u8 == pitch_class_at(string, fret));
        assert(tone_index_of(tones, ((open as int + order[f] as int) % 12) as u8) is Some);
        let k = choose|k: int| 0 <= k < cands.len() && cands[k] == (order[f], tone);
        assert(cands[k].1 == tone);
    }
    if cands.len() > 0 {
        let c = cands[0];
        let f = choose|f: int| 0 <= f < order.len() && order[f] == c.0;
        assert(order[f] == c.0);
        assert(tone_index_of(tones, pitch_class_at(string, c.0 as int)) is Some);
    }
    if can_sound_chord(tones, center, string) {
        let fret = choose|fret: int| window_low(center) <= fret <= window_high(center)
            && (#[trigger] tone_index_of(tones, pitch_class_at(string, fret))) is Some;
        assert(order.contains(fret as usize));
        let f = choose|f: int| 0 <= f < order.len() && order[f] == fret as usize;
        assert(order[f] as int == fret);
        assert(((open as int + order[f] as int) % 12) as u8 == pitch_class_at(string, fret));
        assert(tone_index_of(tones, ((open as int + order[f] as int) % 12) as u8) is Some);
        let t = tone_index_of(tones, ((open as int + order[f] as int) % 12) as u8).unwrap();
        assert(cands.contains((order[f], t)));
    }
}

proof fn lemma_fill_slot(all: Seq<Seq<Candidate>>, bass: Option<(int, Candidate)>, string: int, used: Seq<bool>, k: int)
    requires
        0 <= string <= k < 6,
    ensures
        fill_strings(all, bass, string, used)[k - string] is Some
            <==> (is_bass_string(bass, k) || (!below_bass(bass, k) && all[k].len() > 0)),
    decreases k - string,
{
    if string < k {
        let filled = fill_strings(all, bass, string, used);
        if is_bass_string(bass, string) || below_bass(bass, string) || all[string].len() == 0 {
            lemma_fill_slot(all, bass, string + 1, used, k);
            lemma_fill_len(all, bass, string + 1, used);
            assert(filled[k - string] == fill_strings(all, bass, string + 1, used)[k - string - 1]);
        } else {
            let choice = match first_unused(all[string], used, 0) {
                Some(candidate) => candidate,
                None => all[string][0],
            };
            let next_used = used.update(choice.1 as int, true);
            lemma_fill_slot(all, bass, string + 1, next_used, k);
            lemma_fill_len(all, bass, string + 1, next_used);
            assert(filled[k - string] == fill_strings(all, bass, string + 1, next_used)[k - string - 1]);
        }
    }
}

proof fn lemma_emitted_empty(assignment: Seq<Option<Candidate>>, labels: Seq<&'static str>, count: int)
    requires
        0 <= count <= assignment.len(),
        forall|j: int| 0 <= j < count ==> (#[trigger] assignment[j]) is None,
    ensures
        emitted_notes(assignment, labels, count).len() == 0,
    decreases count,
{
    if count > 0 {
        lemma_emitted_empty(assignment, labels, count - 1);
    }
}

proof fn lemma_emitted_first(assignment: Seq<Option<Candidate>>, labels: Seq<&'static str>, count: int, first: int)
    requires
        0 <= first < count <= assignment.len() <= 6,
        assignment[first] is Some,
        forall|j: int| 0 <= j < first ==> (#[trigger] assignment[j]) is None,
    ensures
        emitted_notes(assignment, labels, count).len() > 0,
        emitted_notes(assignment, labels, count)[0]
            == ((5 - first) as usize, assignment[first].unwrap().0, labels[assignment[first].unwrap().1 as int]@),
    decreases count,
{
    if count - 1 == first {
        lemma_emitted_empty(assignment, labels, first);
    } else {
        lemma_emitted_first(assignment, labels, count - 1, first);
    }
}

/// Strings of a voicing and slots of its assignment correspond one to one.
proof fn lemma_emitted_used(assignment: Seq<Option<Candidate>>, labels: Seq<&'static str>, s: int)
    requires
        assignment.len() == 6,
        0 <= s < 6,
    ensures
        (exists|i: int| 0 <= i < emitted_notes(assignment, labels, 6).len()
            && (#[trigger] emitted_notes(assignment, labels, 6)[i]).0 == 5 - s) <==> assignment[s] is Some,
{
    let notes = emitted_notes(assignment, labels, 6);
    lemma_emitted_strings(assignment, labels, 6);
    if assignment[s] is Some {
        lemma_emitted_contains(assignment, labels, 6, s);
        let i = choose|i: int| 0 <= i < notes.len()
            && notes[i] == ((5 - s) as usize, assignment[s].unwrap().0, labels[assignment[s].unwrap().1 as int]@);
        assert(notes[i].0 == 5 - s);
    }
    if exists|i: int| 0 <= i < notes.len() && (#[trigger] notes[i]).0 == 5 - s {
        let i = choose|i: int| 0 <= i < notes.len() && (#[trigger] notes[i]).0 == 5 - s;
        assert(5 - notes[i].0 == s);
    }
}

proof fn lemma_structure_labels_differ()
    ensures
        "Triad"@ != "13th"@, "7th"@ != "13th"@, "9th"@ != "13th"@, "11th"@ != "13th"@,
        "Triad"@ != "7th"@,
{
    reveal_strlit("Triad");
    reveal_strlit("7th");
    reveal_strlit("9th");
    reveal_strlit("11th");
    reveal_strlit("13th");
    assert("Triad"@.len() == 5 && "7th"@.len() == 3 && "9th"@.len() == 3 && "13th"@.len() == 4);
    assert("11th"@[1] != "13th"@[1]);
}

/// What a 13th chord's symbol says of the chord: "13" exactly for a major
/// third with a minor seventh, "maj13" for a major third with a major
/// seventh, "m13" for a minor third with a minor seventh, "m(Δ)13" for a
/// minor third with a major seventh, and "13?" for any other chord. So the
/// symbol starts with "m" but not "maj" exactly when the third is minor.
pub proof fn lemma_thirteenth_quality(intervals: Seq<u8>, degree: int, offsets: Seq<usize>)
    ensures
        ({
            let suffix = spec_chord_suffix("13th"@, intervals, degree, offsets);
            let third = chord_interval(intervals, degree, offsets, 2);
            let seventh = chord_interval(intervals, degree, offsets, 6);
            &&& (suffix == "13"@ <==> third == Some(4int) && seventh == Some(10int))
            &&& (suffix == "maj13"@ <==> third == Some(4int) && seventh == Some(11int))
            &&& (suffix == "m13"@ <==> third == Some(3int) && seventh == Some(10int))
            &&& (suffix == "m(\u{0394})13"@ <==> third == Some(3int) && seventh == Some(11int))
            &&& (suffix == "13?"@ <==> !((third == Some(4int) || third == Some(3int)) && (seventh == Some(10int) || seventh == Some(11int))))
        }),
{
    lemma_structure_labels_differ();
    reveal_strlit("13");
    reveal_strlit("maj13");
    reveal_strlit("m13");
    reveal_strlit("m(\u{0394})13");
    reveal_strlit("13?");
    assert("13"@.len() == 2 && "maj13"@.len() == 5 && "m13"@.len() == 3 && "m(\u{0394})13"@.len() == 6 && "13?"@.len() == 3);
    assert("m13"@[0] != "13?"@[0]);
}

/// What a triad's symbol says of the chord: no suffix exactly for a major
/// third with a perfect fifth, "m" for a minor third with a perfect fifth,
/// "dim" for a minor third with a diminished fifth, "aug" for a major third
/// with an augmented fifth, and "?" for any other triad.
pub proof fn lemma_triad_quality(intervals: Seq<u8>, degree: int, offsets: Seq<usize>)
    ensures
        ({
            let suffix = spec_chord_suffix("Triad"@, intervals, degree, offsets);
            let third = chord_interval(intervals, degree, offsets, 2);
            let fifth = chord_interval(intervals, degree, offsets, 4);
            &&& (suffix == ""@ <==> third == Some(4int) && fifth == Some(7int))
            &&& (suffix == "m"@ <==> third == Some(3int) && fifth == Some(7int))
            &&& (suffix == "dim"@ <==> third == Some(3int) && fifth == Some(6int))
            &&& (suffix == "aug"@ <==> third == Some(4int) && fifth == Some(8int))
            &&& (suffix == "?"@ <==> !((third == Some(4int) && (fifth == Some(7int) || fifth == Some(8int)))
                || (third == Some(3int) && (fifth == Some(7int) || fifth == Some(6int)))))
        }),
{
    reveal_strlit("");
    reveal_strlit("m");
    reveal_strlit("dim");
    reveal_strlit("aug");
    reveal_strlit("?");
    assert(""@.len() == 0 && "m"@.len() == 1 && "dim"@.len() == 3 && "aug"@.len() == 3 && "?"@.len() == 1);
    assert("m"@[0] != "?"@[0] && "dim"@[0] != "aug"@[0]);
}

/// What a seventh chord's symbol says of the chord, for the common sevenths:
/// "maj7" exactly for a major third and major seventh with a fifth neither
/// diminished nor augmented, "7" for a major third and minor seventh with
/// such a fifth, "m7" for a minor third and minor seventh with a fifth that
/// is not diminished, "m7♭5" for a minor third, diminished fifth and minor
/// seventh, and "dim7" for a minor third, diminished fifth and diminished
/// seventh.
pub proof fn lemma_seventh_quality(intervals: Seq<u8>, degree: int, offsets: Seq<usize>)
    ensures
        ({
            let suffix = spec_chord_suffix("7th"@, intervals, degree, offsets);
            let third = chord_interval(intervals, degree, offsets, 2);
            let fifth = chord_interval(intervals, degree, offsets, 4);
            let seventh = chord_interval(intervals, degree, offsets, 6);
            let plain_fifth = fifth != Some(6int) && fifth != Some(8int);
            &&& (suffix == "maj7"@ <==> third == Some(4int) && plain_fifth && seventh == Some(11int))
            &&& (suffix == "7"@ <==> third == Some(4int) && plain_fifth && seventh == Some(10int))
            &&& (suffix == "m7"@ <==> third == Some(3int) && fifth != Some(6int) && seventh == Some(10int))
            &&& (suffix == "m7\u{266D}5"@ <==> third == Some(3int) && fifth == Some(6int) && seventh == Some(10int))
            &&& (suffix == "dim7"@ <==> third == Some(3int) && fifth == Some(6int) && seventh == Some(9int))
        }),
{
    lemma_structure_labels_differ();
    reveal_strlit("maj7");
    reveal_strlit("7");
    reveal_strlit("m7");
    reveal_strlit("m7\u{266D}5");
    reveal_strlit("dim7");
    reveal_strlit("aug(\u{0394})");
    reveal_strlit("m(\u{0394})");
    reveal_strlit("aug7");
    reveal_strlit("7?");
    assert("maj7"@.len() == 4 && "7"@.len() == 1 && "m7"@.len() == 2 && "m7\u{266D}5"@.len() == 4 && "dim7"@.len() == 4);
    assert("aug(\u{0394})"@.len() == 6 && "m(\u{0394})"@.len() == 4 && "aug7"@.len() == 4 && "7?"@.len() == 2);
    assert("maj7"@[0] != "dim7"@[0] && "maj7"@[0] != "aug7"@[0] && "m7\u{266D}5"@[0] != "dim7"@[0]
        && "m7\u{266D}5"@[0] != "aug7"@[0] && "dim7"@[0] != "aug7"@[0] && "maj7"@[1] != "m7\u{266D}5"@[1]);
    assert("m7"@[0] != "7?"@[0]);
}

proof fn lemma_all_structure_labels_differ()
    ensures
        "Triad"@ != "9th"@, "7th"@ != "9th"@,
        "Triad"@ != "11th"@, "7th"@ != "11th"@, "9th"@ != "11th"@,
        "Triad"@ != "6th"@, "7th"@ != "6th"@, "9th"@ != "6th"@, "11th"@ != "6th"@, "13th"@ != "6th"@,
        "Triad"@ != "add9"@, "7th"@ != "add9"@, "9th"@ != "add9"@, "11th"@ != "add9"@, "13th"@ != "add9"@, "6th"@ != "add9"@,
        "Triad"@ != "add11"@, "7th"@ != "add11"@, "9th"@ != "add11"@, "11th"@ != "add11"@, "13th"@ != "add11"@,
        "6th"@ != "add11"@, "add9"@ != "add11"@,
        "Triad"@ != "sus4"@, "7th"@ != "sus4"@, "9th"@ != "sus4"@, "11th"@ != "sus4"@, "13th"@ != "sus4"@,
        "6th"@ != "sus4"@, "add9"@ != "sus4"@, "add11"@ != "sus4"@,
        "Triad"@ != "sus2"@, "7th"@ != "sus2"@, "9th"@ != "sus2"@, "11th"@ != "sus2"@, "13th"@ != "sus2"@,
        "6th"@ != "sus2"@, "add9"@ != "sus2"@, "add11"@ != "sus2"@, "sus4"@ != "sus2"@,
{
    reveal_strlit("Triad");
    reveal_strlit("7th");
    reveal_strlit("9th");
    reveal_strlit("11th");
    reveal_strlit("13th");
    reveal_strlit("6th");
    reveal_strlit("add9");
    reveal_strlit("add11");
    reveal_strlit("sus4");
    reveal_strlit("sus2");
    assert("Triad"@[0] == 'T' && "7th"@[0] == '7' && "9th"@[0] == '9' && "11th"@[0] == '1' && "13th"@[0] == '1');
    assert("6th"@[0] == '6' && "add9"@[0] == 'a' && "add11"@[0] == 'a' && "sus4"@[0] == 's' && "sus2"@[0] == 's');
    assert("add9"@.len() == 4 && "add11"@.len() == 5 && "sus4"@[3] != "sus2"@[3]);
}

/// What the symbols of the other structures say of the chord. A 9th:
/// "maj9" exactly for a major third and major seventh, "m9" for a minor
/// third and minor seventh with a fifth that is not diminished, "9", "7(♭9)"
/// and "7(♯9)" for a major third and minor seventh with a ninth of 2, 1
/// and 3 semitones, "m(Δ)9" for a minor third and major seventh, "m9♭5"
/// for a minor third, diminished fifth and minor seventh. An 11th: "maj11"
/// exactly for a major seventh, "11" for a minor seventh. A 6th: "6" for a
/// major third with a perfect fifth, "m6" for a minor third with one.
/// add9 and add11: plain for a major third, "m(..)" for a minor one. sus4:
/// "sus4" for a perfect fourth, "sus♯4" for an augmented one; sus2: "sus2"
/// for a major second, "sus♭2" for a minor one; each with a perfect fifth.
pub proof fn lemma_other_structure_qualities(intervals: Seq<u8>, degree: int, offsets: Seq<usize>)
    ensures
        ({
            let second = unwrap_or_zero(chord_interval(intervals, degree, offsets, 1));
            let third = chord_interval(intervals, degree, offsets, 2);
            let fourth = unwrap_or_zero(chord_interval(intervals, degree, offsets, 3));
            let fifth = chord_interval(intervals, degree, offsets, 4);
            let seventh = chord_interval(intervals, degree, offsets, 6);
            let ninth = second;
            let maj3 = third == Some(4int);
            let min3 = third == Some(3int);
            let perf5 = fifth == Some(7int);
            let ninth_suffix = spec_chord_suffix("9th"@, intervals, degree, offsets);
            let eleventh_suffix = spec_chord_suffix("11th"@, intervals, degree, offsets);
            let sixth_suffix = spec_chord_suffix("6th"@, intervals, degree, offsets);
            let add9_suffix = spec_chord_suffix("add9"@, intervals, degree, offsets);
            let add11_suffix = spec_chord_suffix("add11"@, intervals, degree, offsets);
            let sus4_suffix = spec_chord_suffix("sus4"@, intervals, degree, offsets);
            let sus2_suffix = spec_chord_suffix("sus2"@, intervals, degree, offsets);
            &&& (ninth_suffix == "maj9"@ <==> maj3 && seventh == Some(11int))
            &&& (ninth_suffix == "m9"@ <==> min3 && seventh == Some(10int) && fifth != Some(6int))
            &&& (ninth_suffix == "9"@ <==> maj3 && seventh == Some(10int) && ninth == 2)
            &&& (ninth_suffix == "7(\u{266D}9)"@ <==> maj3 && seventh == Some(10int) && ninth == 1)
            &&& (ninth_suffix == "7(\u{266F}9)"@ <==> maj3 && seventh == Some(10int) && ninth == 3)
            &&& (ninth_suffix == "m(\u{0394})9"@ <==> min3 && seventh == Some(11int))
            &&& (ninth_suffix == "m9\u{266D}5"@ <==> min3 && fifth == Some(6int) && seventh == Some(10int))
            &&& (eleventh_suffix == "maj11"@ <==> seventh == Some(11int))
            &&& (eleventh_suffix == "11"@ <==> seventh == Some(10int))
            &&& (sixth_suffix == "6"@ <==> maj3 && perf5)
            &&& (sixth_suffix == "m6"@ <==> min3 && perf5)
            &&& (add9_suffix == "add9"@ <==> maj3)
            &&& (add9_suffix == "m(add9)"@ <==> min3)
            &&& (add11_suffix == "add11"@ <==> maj3)
            &&& (add11_suffix == "m(add11)"@ <==> min3)
            &&& (sus4_suffix == "sus4"@ <==> fourth == 5 && perf5)
            &&& (sus4_suffix == "sus\u{266F}4"@ <==> fourth == 6 && perf5)
            &&& (sus2_suffix == "sus2"@ <==> second == 2 && perf5)
            &&& (sus2_suffix == "sus\u{266D}2"@ <==> second == 1 && perf5)
        }),
{
    lemma_structure_labels_differ();
    lemma_all_structure_labels_differ();
    reveal_strlit("maj9");
    reveal_strlit("m9");
    reveal_strlit("9");
    reveal_strlit("7(\u{266D}9)");
    reveal_strlit("7(\u{266F}9)");
    reveal_strlit("7(?)");
    reveal_strlit("m(\u{0394})9");
    reveal_strlit("m9\u{266D}5");
    reveal_strlit("9?");
    assert("maj9"@.len() == 4 && "m9"@.len() == 2 && "9"@.len() == 1 && "7(\u{266D}9)"@.len() == 5 && "7(\u{266F}9)"@.len() == 5);
    assert("7(?)"@.len() == 4 && "m(\u{0394})9"@.len() == 5 && "m9\u{266D}5"@.len() == 4 && "9?"@.len() == 2);
    assert("maj9"@[0] != "7(?)"@[0] && "maj9"@[1] != "m9\u{266D}5"@[1] && "7(?)"@[0] != "m9\u{266D}5"@[0]);
    assert("7(\u{266D}9)"@[2] != "7(\u{266F}9)"@[2] && "7(\u{266D}9)"@[0] != "m(\u{0394})9"@[0] && "7(\u{266F}9)"@[0] != "m(\u{0394})9"@[0]);
    assert("m9"@[0] != "9?"@[0]);
    reveal_strlit("maj11");
    reveal_strlit("11");
    reveal_strlit("11?");
    assert("maj11"@.len() == 5 && "11"@.len() == 2 && "11?"@.len() == 3);
    reveal_strlit("6");
    reveal_strlit("m6");
    reveal_strlit("?6");
    assert("6"@.len() == 1 && "m6"@.len() == 2 && "?6"@.len() == 2 && "m6"@[0] != "?6"@[0]);
    reveal_strlit("add9");
    reveal_strlit("m(add9)");
    reveal_strlit("add9?");
    assert("add9"@.len() == 4 && "m(add9)"@.len() == 7 && "add9?"@.len() == 5);
    reveal_strlit("add11");
    reveal_strlit("m(add11)");
    reveal_strlit("add11?");
    assert("add11"@.len() == 5 && "m(add11)"@.len() == 8 && "add11?"@.len() == 6);
    reveal_strlit("sus4");
    reveal_strlit("sus\u{266F}4");
    reveal_strlit("sus4?");
    assert("sus4"@.len() == 4 && "sus\u{266F}4"@.len() == 5 && "sus4?"@.len() == 5 && "sus\u{266F}4"@[3] != "sus4?"@[3]);
    reveal_strlit("sus2");
    reveal_strlit("sus\u{266D}2");
    reveal_strlit("sus2?");
    assert("sus2"@.len() == 4 && "sus\u{266D}2"@.len() == 5 && "sus2?"@.len() == 5 && "sus\u{266D}2"@[3] != "sus2?"@[3]);
}

} // verus!
