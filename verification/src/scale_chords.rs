//! Chords on the scales page: a chord structure is chosen, a fret is tapped
//! to pick the scale degree the chord is built on, and the chord can be
//! inverted; the pentatonic subsets of the scale can be cycled when no
//! chord is chosen. This is what each of those does to the selection, what
//! the buttons read and which are shown, and the chord voiced for display
//! and playing.
use vstd::prelude::*;
use crate::scale_data::{
    Scale, ScaleFamily, family_matches_table, all_families, family_len, table_intervals, table_pentatonics, scale_degree,
    has_diatonic_chords, note_at_fret, spec_standard_tuning, semitones_from_root,
    spec_note_name, note_name, lemma_table_well_formed, scale_matches_table, pentatonic_view,
};
use crate::chord_builder::{
    ChordStructure, chord_root_class, spec_chord_suffix, VoicingNote, chord_structures, table_offsets, structure_matches_table, generate_voicing,
    chord_symbol, spec_voicing, note_view, voicing_requires, chord_symbol_requires,
};
use crate::text::{decimal, push_text, push_decimal};

verus! {

/// The family the page shows for a chosen index (the last one past the end).
pub open spec fn shown_family(family: usize) -> int {
    if family < 4 { family as int } else { 4 }
}

/// The mode the page shows for a chosen index (the family's last past its end).
pub open spec fn shown_mode(family: usize, mode: usize) -> int {
    let count = family_len(shown_family(family));
    if mode < count - 1 { mode as int } else { count - 1 }
}

/// The first degree of `intervals` from `from` on that lies `semitones`
/// above the root.
pub open spec fn first_degree(intervals: Seq<u8>, semitones: int, from: int) -> Option<int>
    decreases intervals.len() - from,
{
    if from < 0 || from >= intervals.len() {
        None
    } else if intervals[from] == semitones {
        Some(from)
    } else {
        first_degree(intervals, semitones, from + 1)
    }
}

/// The chord choices of the page: a structure index plus one (0 for none),
/// the tapped degree and fret (-1 for none), the inversion and the
/// pentatonic subset shown (0 for none).
#[derive(Debug, Clone, Copy, PartialEq, Eq, Structural)]
pub struct ChordPick {
    pub root: u8,
    pub family: usize,
    pub mode: usize,
    pub chord_selected: usize,
    pub chord_degree: i32,
    pub chord_fret: i32,
    pub inversion: usize,
    pub pentatonic_variant: usize,
}

/// Which of the page's chord controls are shown.
#[derive(Debug, Clone, Copy, PartialEq, Eq, Structural)]
pub struct ChordControls {
    pub pentatonic: bool,
    pub inversion: bool,
    pub mute: bool,
    pub tap_hint: bool,
}

/// The intervals of the scale the page shows.
pub open spec fn shown_intervals(p: ChordPick) -> Seq<u8> {
    table_intervals(shown_family(p.family), shown_mode(p.family, p.mode))
}

pub open spec fn shown_pentatonic_count(p: ChordPick) -> nat {
    table_pentatonics(shown_family(p.family), shown_mode(p.family, p.mode)).len()
}

/// Tapping a fret: with a structure chosen and a seven-note scale, the
/// tapped note's degree is picked with the fret, or dropped when the same
/// degree and fret were picked; the inversion goes back to the root. A note
/// outside the scale changes nothing.
pub open spec fn tap_effect(p: ChordPick, string_index: usize, fret: usize) -> ChordPick {
    let intervals = shown_intervals(p);
    if p.chord_selected == 0 || intervals.len() != 7 {
        p
    } else {
        let note = (spec_standard_tuning(string_index as int) + fret % 256) as u8;
        match first_degree(intervals, semitones_from_root(note, p.root), 0) {
            None => p,
            Some(degree) => if p.chord_degree == degree && p.chord_fret == fret {
                ChordPick { chord_degree: -1i32, chord_fret: -1i32, inversion: 0, ..p }
            } else {
                ChordPick { chord_degree: degree as i32, chord_fret: fret as i32, inversion: 0, ..p }
            },
        }
    }
}

/// Whether a tap picks or drops a chord degree (and the chord is voiced
/// anew).
pub open spec fn tap_applies(p: ChordPick, string_index: usize, fret: usize) -> bool {
    let intervals = shown_intervals(p);
    let note = (spec_standard_tuning(string_index as int) + fret % 256) as u8;
    &&& p.chord_selected != 0
    &&& intervals.len() == 7
    &&& first_degree(intervals, semitones_from_root(note, p.root), 0) is Some
}

/// The next pentatonic subset, round to none after the last; a scale
/// without any keeps none.
pub open spec fn pentatonic_effect(p: ChordPick) -> ChordPick {
    let count = shown_pentatonic_count(p);
    if count == 0 {
        p
    } else {
        ChordPick { pentatonic_variant: ((p.pentatonic_variant + 1) % (count as int + 1)) as usize, ..p }
    }
}

/// The next inversion of a chosen chord, round to the root position.
pub open spec fn inversion_effect(p: ChordPick) -> ChordPick {
    if p.chord_selected == 0 || p.chord_degree < 0 {
        p
    } else {
        let count = table_offsets(p.chord_selected - 1).len();
        ChordPick { inversion: ((p.inversion + 1) % (count as int)) as usize, ..p }
    }
}

pub open spec fn controls_of(p: ChordPick) -> ChordControls {
    let in_chord_mode = p.chord_selected > 0;
    ChordControls {
        pentatonic: !in_chord_mode && shown_pentatonic_count(p) > 0,
        inversion: in_chord_mode && p.chord_degree >= 0,
        mute: in_chord_mode,
        tap_hint: in_chord_mode && p.chord_degree < 0,
    }
}

/// The label of the pentatonic button.
pub open spec fn spec_pentatonic_label(count: nat, variant: usize) -> Seq<char> {
    if count > 1 && variant > 0 { "Pent "@ + decimal(variant as nat) } else { "Pent"@ }
}

/// The label of the inversion button.
pub open spec fn spec_inversion_label(inversion: usize) -> Seq<char> {
    if inversion == 0 { "Root"@ } else { "Inv "@ + decimal(inversion as nat) }
}

/// The scale's title: the root's name and the scale's name.
pub open spec fn spec_scale_title(root: u8, scale: Scale) -> Seq<char> {
    spec_note_name(root as int) + " "@ + scale.name@
}

/// The scale's degree labels, two spaces apart.
pub open spec fn spec_degree_line(labels: Seq<&'static str>) -> Seq<char>
    decreases labels.len(),
{
    if labels.len() == 0 {
        Seq::empty()
    } else if labels.len() == 1 {
        labels[0]@
    } else {
        spec_degree_line(labels.drop_last()) + "  "@ + labels.last()@
    }
}

pub fn pentatonic_label(count: usize, variant: usize) -> (label: String)
    ensures
        label@ == spec_pentatonic_label(count as nat, variant),
{
    let mut label = String::new();
    if count > 1 && variant > 0 {
        push_text(&mut label, "Pent ");
        push_decimal(&mut label, variant as u64);
    } else {
        push_text(&mut label, "Pent");
    }
    label
}

pub fn inversion_label(inversion: usize) -> (label: String)
    ensures
        label@ == spec_inversion_label(inversion),
{
    let mut label = String::new();
    if inversion == 0 {
        push_text(&mut label, "Root");
    } else {
        push_text(&mut label, "Inv ");
        push_decimal(&mut label, inversion as u64);
    }
    label
}

pub fn scale_title(root: u8, scale: &Scale) -> (title: String)
    requires
        root < 12,
    ensures
        title@ == spec_scale_title(root, *scale),
{
    let mut title = String::new();
    push_text(&mut title, note_name(root as usize));
    push_text(&mut title, " ");
    push_text(&mut title, scale.name);
    title
}

pub fn degree_line(scale: &Scale) -> (line: String)
    ensures
        line@ == spec_degree_line(scale.degree_labels@),
{
    let labels = &scale.degree_labels;
    let mut line = String::new();
    let mut i: usize = 0;
    while i < labels.len()
        invariant
            i <= labels@.len(),
            line@ == spec_degree_line(labels@.take(i as int)),
        decreases labels@.len() - i,
    {
        assert(labels@.take(i + 1).drop_last() =~= labels@.take(i as int));
        if i > 0 {
            push_text(&mut line, "  ");
        }
        push_text(&mut line, labels[i]);
        i += 1;
    }
    assert(labels@.take(i as int) =~= labels@);
    line
}

pub(crate) proof fn lemma_first_degree_is(intervals: Seq<u8>, semitones: int, d: int, from: int)
    requires
        0 <= from <= d < intervals.len(),
        intervals[d] == semitones,
        forall|j: int| from <= j < d ==> intervals[j] != semitones,
    ensures
        first_degree(intervals, semitones, from) == Some(d),
    decreases d - from,
{
    if from < d {
        lemma_first_degree_is(intervals, semitones, d, from + 1);
    }
}

pub(crate) proof fn lemma_first_degree_none(intervals: Seq<u8>, semitones: int, from: int)
    requires
        0 <= from,
        forall|j: int| from <= j < intervals.len() ==> intervals[j] != semitones,
    ensures
        first_degree(intervals, semitones, from) is None,
    decreases intervals.len() - from,
{
    if from < intervals.len() {
        lemma_first_degree_none(intervals, semitones, from + 1);
    }
}

/// The scale the page shows, as the built-in table has it.
fn shown_scale_of(families: &Vec<ScaleFamily>, family: usize, mode: usize) -> (scale: &Scale)
    requires
        families@.len() == 5,
        forall|f: int| 0 <= f < 5 ==> family_matches_table(#[trigger] families@[f].scales@, f),
    ensures
        scale_matches_table(*scale, shown_family(family), shown_mode(family, mode)),
{
    let f: usize = if family < 4 { family } else { 4 };
    let scales = &families[f].scales;
    let count = scales.len();
    assert(count == family_len(f as int));
    let m: usize = if mode < count - 1 { mode } else { count - 1 };
    &scales[m]
}

impl ChordPick {
    pub fn new() -> (p: ChordPick)
        ensures
            p == (ChordPick {
                root: 0,
                family: 0,
                mode: 0,
                chord_selected: 0,
                chord_degree: -1i32,
                chord_fret: -1i32,
                inversion: 0,
                pentatonic_variant: 0,
            }),
    {
        ChordPick {
            root: 0,
            family: 0,
            mode: 0,
            chord_selected: 0,
            chord_degree: -1,
            chord_fret: -1,
            inversion: 0,
            pentatonic_variant: 0,
        }
    }

    /// A new root, family or mode: the pentatonic subset is dropped when
    /// the new scale has fewer than its number.
    pub fn select_scale(&mut self, root: u8, family: usize, mode: usize)
        requires
            family < 5,
            mode < family_len(family as int),
        ensures
            *final(self) == (ChordPick {
                root,
                family,
                mode,
                pentatonic_variant: if old(self).pentatonic_variant > table_pentatonics(family as int, mode as int).len() {
                    0
                } else {
                    old(self).pentatonic_variant
                },
                ..*old(self)
            }),
    {
        let families = all_families();
        let scale = &families[family].scales[mode];
        proof {
            assert(scale_matches_table(*scale, family as int, mode as int));
            assert(scale.pentatonic_variants@.len() == pentatonic_view(*scale).len());
        }
        self.root = root;
        self.family = family;
        self.mode = mode;
        if self.pentatonic_variant > scale.pentatonic_variants.len() {
            self.pentatonic_variant = 0;
        }
    }

    /// Chooses a chord structure (0 for none).
    pub fn select_chord(&mut self, chord_selected: usize)
        ensures
            *final(self) == (ChordPick { chord_selected, ..*old(self) }),
    {
        self.chord_selected = chord_selected;
    }

    /// A tap on `fret` of the string shown at `string_index`; whether it
    /// picked or dropped a degree.
    pub fn tap_fret(&mut self, string_index: usize, fret: usize) -> (applied: bool)
        requires
            string_index < 6,
            spec_standard_tuning(string_index as int) + fret % 256 <= u8::MAX,
            fret <= i32::MAX,
        ensures
            *final(self) == tap_effect(*old(self), string_index, fret),
            applied == tap_applies(*old(self), string_index, fret),
    {
        if self.chord_selected == 0 {
            return false;
        }
        let families = all_families();
        let scale = shown_scale_of(&families, self.family, self.mode);
        if !has_diatonic_chords(scale) {
            return false;
        }
        let note = note_at_fret(string_index, fret);
        let degree = match scale_degree(note, self.root, scale) {
            Some(d) => {
                proof {
                    lemma_first_degree_is(scale.intervals@, semitones_from_root(note, self.root), d as int, 0);
                }
                d as i32
            },
            None => {
                proof {
                    lemma_first_degree_none(scale.intervals@, semitones_from_root(note, self.root), 0);
                }
                return false;
            },
        };
        if self.chord_degree == degree && self.chord_fret == fret as i32 {
            self.chord_degree = -1;
            self.chord_fret = -1;
        } else {
            self.chord_degree = degree;
            self.chord_fret = fret as i32;
        }
        self.inversion = 0;
        true
    }

    /// The next pentatonic subset; gives it, or nothing when the scale has
    /// none.
    pub fn cycle_pentatonic(&mut self) -> (variant: Option<usize>)
        requires
            old(self).pentatonic_variant < usize::MAX,
        ensures
            *final(self) == pentatonic_effect(*old(self)),
            variant == if shown_pentatonic_count(*old(self)) == 0 { None } else { Some(final(self).pentatonic_variant) },
    {
        let families = all_families();
        let scale = shown_scale_of(&families, self.family, self.mode);
        let count = scale.pentatonic_variants.len();
        proof {
            assert(count == pentatonic_view(*scale).len());
        }
        if count == 0 {
            return None;
        }
        self.pentatonic_variant = (self.pentatonic_variant + 1) % (count + 1);
        Some(self.pentatonic_variant)
    }

    /// The next inversion of the chosen chord; whether there was one.
    pub fn cycle_inversion(&mut self) -> (changed: bool)
        requires
            old(self).chord_selected <= 10,
            old(self).inversion < usize::MAX,
        ensures
            *final(self) == inversion_effect(*old(self)),
            changed == (old(self).chord_selected > 0 && old(self).chord_degree >= 0),
    {
        if self.chord_selected == 0 || self.chord_degree < 0 {
            return false;
        }
        let structures = chord_structures();
        let structure = &structures[self.chord_selected - 1];
        proof {
            assert(structure_matches_table(*structure, self.chord_selected - 1));
        }
        self.inversion = (self.inversion + 1) % structure.offsets.len();
        true
    }

    /// Which controls are shown.
    pub fn controls(&self) -> (controls: ChordControls)
        ensures
            controls == controls_of(*self),
    {
        let families = all_families();
        let scale = shown_scale_of(&families, self.family, self.mode);
        proof {
            assert(scale.pentatonic_variants@.len() == pentatonic_view(*scale).len());
        }
        let in_chord_mode = self.chord_selected > 0;
        ChordControls {
            pentatonic: !in_chord_mode && scale.pentatonic_variants.len() > 0,
            inversion: in_chord_mode && self.chord_degree >= 0,
            mute: in_chord_mode,
            tap_hint: in_chord_mode && self.chord_degree < 0,
        }
    }

    /// The chosen chord, voiced around the tapped fret, and its symbol;
    /// nothing without a structure and a degree. `families` and
    /// `structures` are the built-in tables.
    pub fn chord(&self, families: &Vec<ScaleFamily>, structures: &Vec<ChordStructure>) -> (chord: Option<(Vec<VoicingNote>, String)>)
        requires
            families@.len() == 5,
            forall|f: int| 0 <= f < 5 ==> family_matches_table(#[trigger] families@[f].scales@, f),
            structures@.len() == 10,
            forall|i: int| 0 <= i < 10 ==> structure_matches_table(#[trigger] structures@[i], i),
            self.chord_selected <= 10,
            self.root < 12,
        ensures
            (self.chord_selected == 0 || self.chord_degree < 0) <==> chord is None,
            chord matches Some((voicing, symbol)) ==> {
                let scale = families@[shown_family(self.family)].scales@[shown_mode(self.family, self.mode)];
                let structure = structures@[self.chord_selected - 1];
                let degree = self.chord_degree as usize;
                &&& voicing@.map_values(|note: VoicingNote| note_view(note)) == spec_voicing(
                    self.root, scale, degree, structure, chord_center(self.chord_fret), self.inversion)
                &&& symbol@ == spec_note_name(chord_root_class(self.root, scale.intervals@, degree as int))
                    + spec_chord_suffix(structure.label@, scale.intervals@, degree as int, structure.offsets@)
            },
    {
        if self.chord_selected == 0 || self.chord_degree < 0 {
            return None;
        }
        let structure = &structures[self.chord_selected - 1];
        let f: usize = if self.family < 4 { self.family } else { 4 };
        let scales = &families[f].scales;
        let count = scales.len();
        proof {
            assert(family_matches_table(families@[f as int].scales@, f as int));
        }
        let m: usize = if self.mode < count - 1 { self.mode } else { count - 1 };
        let scale = &scales[m];
        let degree = self.chord_degree as usize;
        let center: usize = if self.chord_fret < 0 { 0 } else { self.chord_fret as usize };
        proof {
            assert(structure_matches_table(*structure, self.chord_selected - 1));
            assert(scale_matches_table(*scale, f as int, m as int));
            lemma_table_well_formed(f as int, m as int);
            lemma_chord_requires(self.root, *scale, degree, *structure, center);
        }
        let voicing = generate_voicing(self.root, scale, degree, structure, center, self.inversion);
        let symbol = chord_symbol(self.root, scale, degree, structure);
        Some((voicing, symbol))
    }
}

/// Tapping the same fret twice toggles the chord: a first tap that picks a
/// degree is undone by the second, and a first tap that dropped it picks it
/// again.
pub proof fn lemma_tap_toggles(p: ChordPick, string_index: usize, fret: usize)
    requires
        tap_applies(p, string_index, fret),
        fret <= i32::MAX,
    ensures
        ({
            let once = tap_effect(p, string_index, fret);
            let twice = tap_effect(once, string_index, fret);
            &&& tap_applies(once, string_index, fret)
            &&& once.chord_degree >= 0 ==> twice.chord_degree == -1 && twice.chord_fret == -1
            &&& once.chord_degree < 0 ==> twice.chord_degree >= 0 && twice.chord_fret == fret
            &&& twice.inversion == 0
        }),
{
    let intervals = shown_intervals(p);
    let note = (spec_standard_tuning(string_index as int) + fret % 256) as u8;
    let semitones = semitones_from_root(note, p.root);
    lemma_first_degree_range(intervals, semitones, 0);
}

/// The pentatonic subset shown is none or one of the scale's.
pub proof fn lemma_pentatonic_in_range(p: ChordPick)
    requires
        p.pentatonic_variant <= shown_pentatonic_count(p),
    ensures
        pentatonic_effect(p).pentatonic_variant <= shown_pentatonic_count(pentatonic_effect(p)),
{
}

proof fn lemma_first_degree_range(intervals: Seq<u8>, semitones: int, from: int)
    requires
        0 <= from,
    ensures
        first_degree(intervals, semitones, from) matches Some(d) ==> from <= d < intervals.len(),
    decreases intervals.len() - from,
{
    if from < intervals.len() && intervals[from] != semitones {
        lemma_first_degree_range(intervals, semitones, from + 1);
    }
}

/// The fret a chord is voiced around: the tapped one, or the nut.
pub open spec fn chord_center(fret: i32) -> usize {
    if fret < 0 { 0 } else { fret as usize }
}

proof fn lemma_chord_requires(root: u8, scale: Scale, degree: usize, structure: ChordStructure, center: usize)
    requires
        root < 12,
        degree <= i32::MAX,
        center <= i32::MAX,
        scale.intervals@.len() > 0,
        forall|i: int| 0 <= i < scale.intervals@.len() ==> #[trigger] scale.intervals@[i] < 12,
        0 < structure.offsets@.len() <= 6,
        structure.tone_labels@.len() == structure.offsets@.len(),
        forall|k: int| 0 <= k < structure.offsets@.len() ==> #[trigger] structure.offsets@[k] <= 6,
    ensures
        voicing_requires(root, scale, degree, structure, center),
        chord_symbol_requires(root, scale.intervals@, degree as int, structure.offsets@),
{
    let len = scale.intervals@.len() as int;
    assert forall|k: int| 0 <= k < structure.offsets@.len()
        implies root as int + scale.intervals@[(degree + #[trigger] structure.offsets@[k]) % len] as int <= u8::MAX by {
        let i = (degree + structure.offsets@[k]) % len;
        assert(0 <= i < len) by (nonlinear_arith)
            requires
                len > 0,
                i == (degree + structure.offsets@[k]) % len;
    }
    let i0 = degree as int % len;
    assert(0 <= i0 < len) by (nonlinear_arith)
        requires
            len > 0,
            i0 == degree as int % len;
}

} // verus!
