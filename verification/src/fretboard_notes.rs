//! The notes of the scale on the scales page's fretboard: for each string
//! and fret, whether its note is in the scale, its degree, and whether it is
//! drawn as the root, as a tone of the scale, or as a passing tone outside
//! the pentatonic subset shown. The drawing itself is the widget's.
use vstd::prelude::*;
use crate::scale_data::{Scale, NUM_STRINGS, NUM_FRETS, scale_degree, note_at_fret, spec_standard_tuning, semitones_from_root};
use crate::scale_chords::{first_degree, lemma_first_degree_is, lemma_first_degree_none};

verus! {

#[derive(Debug, Clone, Copy, PartialEq, Eq, Structural)]
pub enum NoteKind {
    Root,
    Tone,
    /// In the scale but outside the pentatonic subset shown.
    Passing,
}

#[derive(Debug, Clone, Copy, PartialEq, Eq, Structural)]
pub struct NoteMark {
    pub degree: usize,
    pub kind: NoteKind,
}

/// Positions per string: the open string and each fret.
pub const FRET_POSITIONS: usize = 25;

/// The mark at a string and fret: the note's first degree in the scale, if
/// it has one; outside the pentatonic subset (when one is shown) it is a
/// passing tone.
pub open spec fn mark_at(root: u8, intervals: Seq<u8>, pentatonic: Option<Seq<usize>>, string: int, fret: int) -> Option<NoteMark> {
    let note = (spec_standard_tuning(string) + fret) as u8;
    match first_degree(intervals, semitones_from_root(note, root), 0) {
        None => None,
        Some(d) => Some(NoteMark {
            degree: d as usize,
            kind: match pentatonic {
                Some(p) => if !p.contains(d as usize) {
                    NoteKind::Passing
                } else if d == 0 {
                    NoteKind::Root
                } else {
                    NoteKind::Tone
                },
                None => if d == 0 { NoteKind::Root } else { NoteKind::Tone },
            },
        }),
    }
}

fn contains_index(indices: &Vec<usize>, degree: usize) -> (found: bool)
    ensures
        found == indices@.contains(degree),
{
    let mut i: usize = 0;
    while i < indices.len()
        invariant
            i <= indices@.len(),
            forall|j: int| 0 <= j < i ==> indices@[j] != degree,
        decreases indices@.len() - i,
    {
        if indices[i] == degree {
            assert(indices@[i as int] == degree);
            return true;
        }
        i += 1;
    }
    false
}

/// The marks of every string and fret, string by string from the one shown
/// first, each from the open string to the last fret.
pub fn scale_note_marks(root: u8, scale: &Scale, pentatonic: Option<&Vec<usize>>) -> (marks: Vec<Option<NoteMark>>)
    ensures
        marks@.len() == NUM_STRINGS * FRET_POSITIONS,
        forall|s: int, f: int| 0 <= s < NUM_STRINGS && 0 <= f < FRET_POSITIONS ==>
            #[trigger] marks@[s * FRET_POSITIONS + f] == mark_at(root, scale.intervals@, match pentatonic {
                Some(p) => Some(p@),
                None => None,
            }, s, f),
{
    let ghost pent = match pentatonic { Some(p) => Some(p@), None => None };
    let mut marks: Vec<Option<NoteMark>> = Vec::new();
    let mut string: usize = 0;
    while string < NUM_STRINGS
        invariant
            string <= NUM_STRINGS,
            pent == match pentatonic { Some(p) => Some(p@), None => None },
            marks@.len() == string * FRET_POSITIONS,
            forall|s: int, f: int| 0 <= s < string && 0 <= f < FRET_POSITIONS ==>
                #[trigger] marks@[s * FRET_POSITIONS + f] == mark_at(root, scale.intervals@, pent, s, f),
        decreases NUM_STRINGS - string,
    {
        let mut fret: usize = 0;
        while fret <= NUM_FRETS
            invariant
                string < NUM_STRINGS,
                fret <= NUM_FRETS + 1,
                pent == match pentatonic { Some(p) => Some(p@), None => None },
                marks@.len() == string * FRET_POSITIONS + fret,
                forall|s: int, f: int| 0 <= s < string && 0 <= f < FRET_POSITIONS ==>
                    #[trigger] marks@[s * FRET_POSITIONS + f] == mark_at(root, scale.intervals@, pent, s, f),
                forall|f: int| 0 <= f < fret ==>
                    #[trigger] marks@[string * FRET_POSITIONS + f] == mark_at(root, scale.intervals@, pent, string as int, f),
            decreases NUM_FRETS + 1 - fret,
        {
            let note = note_at_fret(string, fret);
            let mark = match scale_degree(note, root, scale) {
                Some(degree) => {
                    proof {
                        lemma_first_degree_is(scale.intervals@, semitones_from_root(note, root), degree as int, 0);
                    }
                    let kind = match pentatonic {
                        Some(indices) => if !contains_index(indices, degree) {
                            NoteKind::Passing
                        } else if degree == 0 {
                            NoteKind::Root
                        } else {
                            NoteKind::Tone
                        },
                        None => if degree == 0 { NoteKind::Root } else { NoteKind::Tone },
                    };
                    Some(NoteMark { degree, kind })
                },
                None => {
                    proof {
                        lemma_first_degree_none(scale.intervals@, semitones_from_root(note, root), 0);
                    }
                    None
                },
            };
            assert(mark == mark_at(root, scale.intervals@, pent, string as int, fret as int));
            marks.push(mark);
            proof {
                assert forall|s: int, f: int| 0 <= s < string && 0 <= f < FRET_POSITIONS implies
                    #[trigger] marks@[s * FRET_POSITIONS + f] == mark_at(root, scale.intervals@, pent, s, f) by {
                    assert(s * FRET_POSITIONS + f < string * FRET_POSITIONS) by (nonlinear_arith)
                        requires s < string, f < FRET_POSITIONS, FRET_POSITIONS == 25;
                }
            }
            fret += 1;
        }
        proof {
            assert forall|s: int, f: int| 0 <= s < string + 1 && 0 <= f < FRET_POSITIONS implies
                #[trigger] marks@[s * FRET_POSITIONS + f] == mark_at(root, scale.intervals@, pent, s, f) by {
                if s == string {
                } else {
                }
            }
            assert((string + 1) * FRET_POSITIONS == string * FRET_POSITIONS + FRET_POSITIONS) by (nonlinear_arith);
        }
        string += 1;
    }
    marks
}

/// What a fretboard mark says: a note carries a mark exactly when its
/// distance from the root is one of the scale's intervals, and the mark's
/// degree is the first such one. With a pentatonic subset shown, the note
/// is a passing tone exactly when its degree is outside the subset; a note
/// inside the subset (or any note, without a subset) is the root for
/// degree 0 and a tone otherwise.
pub proof fn lemma_marks_follow_degrees(root: u8, intervals: Seq<u8>, pentatonic: Option<Seq<usize>>, string: int, fret: int)
    requires
        intervals.len() <= usize::MAX,
    ensures
        ({
            let note = (spec_standard_tuning(string) + fret) as u8;
            let distance = semitones_from_root(note, root);
            let mark = mark_at(root, intervals, pentatonic, string, fret);
            &&& (mark is Some <==> exists|d: int| 0 <= d < intervals.len() && #[trigger] intervals[d] == distance)
            &&& (mark matches Some(m) ==> {
                &&& m.degree < intervals.len()
                &&& intervals[m.degree as int] == distance
                &&& forall|j: int| 0 <= j < m.degree ==> #[trigger] intervals[j] != distance
                &&& match pentatonic {
                    Some(p) => {
                        &&& (m.kind == NoteKind::Passing <==> !p.contains(m.degree))
                        &&& p.contains(m.degree) ==> (m.kind == NoteKind::Root <==> m.degree == 0)
                    },
                    None => m.kind != NoteKind::Passing && (m.kind == NoteKind::Root <==> m.degree == 0),
                }
            })
        }),
{
    let note = (spec_standard_tuning(string) + fret) as u8;
    let distance = semitones_from_root(note, root);
    lemma_first_degree_facts(intervals, distance, 0);
}

proof fn lemma_first_degree_facts(intervals: Seq<u8>, semitones: int, from: int)
    requires
        0 <= from,
    ensures
        first_degree(intervals, semitones, from) is Some
            <==> exists|d: int| from <= d < intervals.len() && #[trigger] intervals[d] == semitones,
        first_degree(intervals, semitones, from) matches Some(d) ==> from <= d < intervals.len()
            && intervals[d] == semitones && forall|j: int| from <= j < d ==> #[trigger] intervals[j] != semitones,
    decreases intervals.len() - from,
{
    if from < intervals.len() && intervals[from] != semitones {
        lemma_first_degree_facts(intervals, semitones, from + 1);
        if exists|d: int| from <= d < intervals.len() && #[trigger] intervals[d] == semitones {
            let d = choose|d: int| from <= d < intervals.len() && #[trigger] intervals[d] == semitones;
            assert(from + 1 <= d);
        }
    }
}

} // verus!
