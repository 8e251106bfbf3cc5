//! Music-theory data for the scales and chords reference: the built-in scale
//! table, note names, standard tuning and small pitch helpers.
use vstd::prelude::*;

verus! {

pub const NUM_FRETS: usize = 24;

pub const NUM_STRINGS: usize = 6;

pub struct Scale {
    pub name: &'static str,
    pub intervals: Vec<u8>,
    pub degree_labels: Vec<&'static str>,
    pub pentatonic_variants: Vec<Vec<usize>>,
}

pub struct ScaleFamily {
    pub name: &'static str,
    pub scales: Vec<Scale>,
}

/// The pentatonic subsets of a scale, each as a sequence of indices.
pub open spec fn pentatonic_view(scale: Scale) -> Seq<Seq<usize>> {
    scale.pentatonic_variants@.map_values(|variant: Vec<usize>| variant@)
}

/// Number of modes in each family of the built-in table.
pub open spec fn family_len(family: int) -> nat {
    if family == 0 || family == 1 || family == 2 {
        7
    } else if family == 3 {
        8
    } else if family == 4 {
        1
    } else {
        0
    }
}

pub open spec fn scale_matches_table(scale: Scale, family: int, mode: int) -> bool {
    &&& scale.intervals@ == table_intervals(family, mode)
    &&& scale.degree_labels@.len() == scale.intervals@.len()
    &&& pentatonic_view(scale) == table_pentatonics(family, mode)
}

pub open spec fn family_matches_table(scales: Seq<Scale>, family: int) -> bool {
    &&& scales.len() == family_len(family)
    &&& forall|mode: int| 0 <= mode < scales.len() ==> scale_matches_table(#[trigger] scales[mode], family, mode)
}

/// A scale is well formed when it starts on the root, its intervals rise
/// strictly inside one octave, it has one label per interval, and each
/// pentatonic subset picks five of its notes.
pub open spec fn scale_well_formed(intervals: Seq<u8>, label_count: nat, pentatonics: Seq<Seq<usize>>) -> bool {
    &&& intervals.len() > 0
    &&& intervals[0] == 0
    &&& forall|i: int| 0 <= i < intervals.len() ==> #[trigger] intervals[i] < 12
    &&& forall|i: int, j: int| 0 <= i < j < intervals.len() ==> intervals[i] < intervals[j]
    &&& label_count == intervals.len()
    &&& forall|v: int| 0 <= v < pentatonics.len() ==> (#[trigger] pentatonics[v]).len() == 5
    &&& forall|v: int, k: int| 0 <= v < pentatonics.len() && 0 <= k < 5 ==> (#[trigger] pentatonics[v][k]) < intervals.len()
}

/// Semitone offsets from the root of mode `mode` in family `family` of the built-in table.
pub open spec fn table_intervals(family: int, mode: int) -> Seq<u8> {
    if family == 0 && mode == 0 {
        seq![0u8, 2, 4, 5, 7, 9, 11]
    } else if family == 0 && mode == 1 {
        seq![0u8, 2, 3, 5, 7, 9, 10]
    } else if family == 0 && mode == 2 {
        seq![0u8, 1, 3, 5, 7, 8, 10]
    } else if family == 0 && mode == 3 {
        seq![0u8, 2, 4, 6, 7, 9, 11]
    } else if family == 0 && mode == 4 {
        seq![0u8, 2, 4, 5, 7, 9, 10]
    } else if family == 0 && mode == 5 {
        seq![0u8, 2, 3, 5, 7, 8, 10]
    } else if family == 0 && mode == 6 {
        seq![0u8, 1, 3, 5, 6, 8, 10]
    } else if family == 1 && mode == 0 {
        seq![0u8, 2, 3, 5, 7, 9, 11]
    } else if family == 1 && mode == 1 {
        seq![0u8, 1, 3, 5, 7, 9, 10]
    } else if family == 1 && mode == 2 {
        seq![0u8, 2, 4, 6, 8, 9, 11]
    } else if family == 1 && mode == 3 {
        seq![0u8, 2, 4, 6, 7, 9, 10]
    } else if family == 1 && mode == 4 {
        seq![0u8, 2, 4, 5, 7, 8, 10]
    } else if family == 1 && mode == 5 {
        seq![0u8, 2, 3, 5, 6, 8, 10]
    } else if family == 1 && mode == 6 {
        seq![0u8, 1, 3, 4, 6, 8, 10]
    } else if family == 2 && mode == 0 {
        seq![0u8, 2, 3, 5, 7, 8, 11]
    } else if family == 2 && mode == 1 {
        seq![0u8, 1, 3, 5, 6, 9, 10]
    } else if family == 2 && mode == 2 {
        seq![0u8, 2, 4, 5, 8, 9, 11]
    } else if family == 2 && mode == 3 {
        seq![0u8, 2, 3, 6, 7, 9, 10]
    } else if family == 2 && mode == 4 {
        seq![0u8, 1, 4, 5, 7, 8, 10]
    } else if family == 2 && mode == 5 {
        seq![0u8, 3, 4, 6, 7, 9, 11]
    } else if family == 2 && mode == 6 {
        seq![0u8, 1, 3, 4, 6, 8, 9]
    } else if family == 3 && mode == 0 {
        seq![0u8, 2, 4, 6, 8, 10]
    } else if family == 3 && mode == 1 {
        seq![0u8, 1, 3, 4, 6, 7, 9, 10]
    } else if family == 3 && mode == 2 {
        seq![0u8, 2, 3, 5, 6, 8, 9, 11]
    } else if family == 3 && mode == 3 {
        seq![0u8, 2, 3, 4, 6, 7, 8, 10, 11]
    } else if family == 3 && mode == 4 {
        seq![0u8, 1, 2, 5, 6, 7, 8, 11]
    } else if family == 3 && mode == 5 {
        seq![0u8, 1, 5, 6, 7, 11]
    } else if family == 3 && mode == 6 {
        seq![0u8, 2, 4, 5, 6, 8, 10, 11]
    } else if family == 3 && mode == 7 {
        seq![0u8, 1, 2, 3, 5, 6, 7, 8, 9, 11]
    } else if family == 4 && mode == 0 {
        seq![0u8, 3, 5, 6, 7, 10]
    } else {
        Seq::empty()
    }
}

/// Pentatonic subsets (indices into the intervals) of mode `mode` in family `family` of the built-in table.
pub open spec fn table_pentatonics(family: int, mode: int) -> Seq<Seq<usize>> {
    if family == 0 && mode == 0 {
        seq![seq![0usize, 2, 3, 4, 6], seq![0usize, 2, 4, 5, 6]]
    } else if family == 0 && mode == 1 {
        seq![seq![0usize, 2, 3, 5, 6], seq![0usize, 2, 3, 4, 5]]
    } else if family == 0 && mode == 2 {
        seq![seq![0usize, 1, 2, 4, 6], seq![0usize, 1, 2, 3, 4]]
    } else if family == 0 && mode == 3 {
        seq![seq![0usize, 2, 3, 4, 6], seq![0usize, 2, 3, 5, 6]]
    } else if family == 0 && mode == 4 {
        seq![seq![0usize, 2, 3, 4, 6], seq![0usize, 2, 4, 5, 6]]
    } else if family == 0 && mode == 5 {
        seq![seq![0usize, 2, 3, 4, 6], seq![0usize, 2, 3, 5, 6]]
    } else if family == 0 && mode == 6 {
        seq![seq![0usize, 2, 3, 4, 6], seq![0usize, 1, 2, 4, 6]]
    } else if family == 1 && mode == 0 {
        seq![seq![0usize, 2, 3, 4, 6], seq![0usize, 2, 4, 5, 6]]
    } else if family == 1 && mode == 1 {
        seq![seq![0usize, 1, 2, 4, 6], seq![0usize, 1, 2, 5, 6]]
    } else if family == 1 && mode == 2 {
        seq![seq![0usize, 2, 3, 4, 6], seq![0usize, 2, 4, 5, 6]]
    } else if family == 1 && mode == 3 {
        seq![seq![0usize, 2, 3, 4, 6], seq![0usize, 2, 3, 5, 6]]
    } else if family == 1 && mode == 4 {
        seq![seq![0usize, 2, 3, 5, 6], seq![0usize, 2, 4, 5, 6]]
    } else if family == 1 && mode == 5 {
        seq![seq![0usize, 2, 3, 4, 6], seq![0usize, 1, 2, 4, 6]]
    } else if family == 1 && mode == 6 {
        seq![seq![0usize, 2, 3, 4, 6], seq![0usize, 1, 2, 4, 6]]
    } else if family == 2 && mode == 0 {
        seq![seq![0usize, 2, 3, 4, 6], seq![0usize, 2, 4, 5, 6]]
    } else if family == 2 && mode == 1 {
        seq![seq![0usize, 2, 3, 4, 6], seq![0usize, 2, 4, 5, 6]]
    } else if family == 2 && mode == 2 {
        seq![seq![0usize, 2, 3, 4, 6], seq![0usize, 2, 4, 5, 6]]
    } else if family == 2 && mode == 3 {
        seq![seq![0usize, 2, 3, 4, 6], seq![0usize, 2, 3, 5, 6]]
    } else if family == 2 && mode == 4 {
        seq![seq![0usize, 1, 2, 4, 6], seq![0usize, 1, 2, 5, 6]]
    } else if family == 2 && mode == 5 {
        seq![seq![0usize, 2, 3, 4, 6], seq![0usize, 1, 2, 4, 6]]
    } else if family == 2 && mode == 6 {
        seq![seq![0usize, 2, 3, 4, 6], seq![0usize, 1, 2, 4, 6]]
    } else {
        Seq::empty()
    }
}

fn major_scales() -> (scales: Vec<Scale>)
    ensures
        family_matches_table(scales@, 0),
{
    let s0 = Scale {
        name: "Ionian",
        intervals: vec![0, 2, 4, 5, 7, 9, 11],
        degree_labels: vec!["1", "2", "3", "4", "5", "6", "7"],
        pentatonic_variants: vec![vec![0, 2, 3, 4, 6], vec![0, 2, 4, 5, 6]],
    };
    assert(pentatonic_view(s0) =~= table_pentatonics(0, 0));
    let s1 = Scale {
        name: "Dorian",
        intervals: vec![0, 2, 3, 5, 7, 9, 10],
        degree_labels: vec!["1", "2", "\u{266D}3", "4", "5", "6", "\u{266D}7"],
        pentatonic_variants: vec![vec![0, 2, 3, 5, 6], vec![0, 2, 3, 4, 5]],
    };
    assert(pentatonic_view(s1) =~= table_pentatonics(0, 1));
    let s2 = Scale {
        name: "Phrygian",
        intervals: vec![0, 1, 3, 5, 7, 8, 10],
        degree_labels: vec!["1", "\u{266D}2", "\u{266D}3", "4", "5", "\u{266D}6", "\u{266D}7"],
        pentatonic_variants: vec![vec![0, 1, 2, 4, 6], vec![0, 1, 2, 3, 4]],
    };
    assert(pentatonic_view(s2) =~= table_pentatonics(0, 2));
    let s3 = Scale {
        name: "Lydian",
        intervals: vec![0, 2, 4, 6, 7, 9, 11],
        degree_labels: vec!["1", "2", "3", "\u{266F}4", "5", "6", "7"],
        pentatonic_variants: vec![vec![0, 2, 3, 4, 6], vec![0, 2, 3, 5, 6]],
    };
    assert(pentatonic_view(s3) =~= table_pentatonics(0, 3));
    let s4 = Scale {
        name: "Mixolydian",
        intervals: vec![0, 2, 4, 5, 7, 9, 10],
        degree_labels: vec!["1", "2", "3", "4", "5", "6", "\u{266D}7"],
        pentatonic_variants: vec![vec![0, 2, 3, 4, 6], vec![0, 2, 4, 5, 6]],
    };
    assert(pentatonic_view(s4) =~= table_pentatonics(0, 4));
    let s5 = Scale {
        name: "Aeolian",
        intervals: vec![0, 2, 3, 5, 7, 8, 10],
        degree_labels: vec!["1", "2", "\u{266D}3", "4", "5", "\u{266D}6", "\u{266D}7"],
        pentatonic_variants: vec![vec![0, 2, 3, 4, 6], vec![0, 2, 3, 5, 6]],
    };
    assert(pentatonic_view(s5) =~= table_pentatonics(0, 5));
    let s6 = Scale {
        name: "Locrian",
        intervals: vec![0, 1, 3, 5, 6, 8, 10],
        degree_labels: vec!["1", "\u{266D}2", "\u{266D}3", "4", "\u{266D}5", "\u{266D}6", "\u{266D}7"],
        pentatonic_variants: vec![vec![0, 2, 3, 4, 6], vec![0, 1, 2, 4, 6]],
    };
    assert(pentatonic_view(s6) =~= table_pentatonics(0, 6));
    let scales = vec![s0, s1, s2, s3, s4, s5, s6];
    assert(family_matches_table(scales@, 0)) by {
        assert forall|m: int| 0 <= m < scales@.len() implies scale_matches_table(#[trigger] scales@[m], 0, m) by {
            if m == 0 {
                assert(scales@[m] == s0);
            } else if m == 1 {
                assert(scales@[m] == s1);
            } else if m == 2 {
                assert(scales@[m] == s2);
            } else if m == 3 {
                assert(scales@[m] == s3);
            } else if m == 4 {
                assert(scales@[m] == s4);
            } else if m == 5 {
                assert(scales@[m] == s5);
            } else if m == 6 {
                assert(scales@[m] == s6);
            }
        }
    }
    scales
}

fn melodic_minor_scales() -> (scales: Vec<Scale>)
    ensures
        family_matches_table(scales@, 1),
{
    let s0 = Scale {
        name: "Melodic Minor",
        intervals: vec![0, 2, 3, 5, 7, 9, 11],
        degree_labels: vec!["1", "2", "\u{266D}3", "4", "5", "6", "7"],
        pentatonic_variants: vec![vec![0, 2, 3, 4, 6], vec![0, 2, 4, 5, 6]],
    };
    assert(pentatonic_view(s0) =~= table_pentatonics(1, 0));
    let s1 = Scale {
        name: "Dorian \u{266D}2",
        intervals: vec![0, 1, 3, 5, 7, 9, 10],
        degree_labels: vec!["1", "\u{266D}2", "\u{266D}3", "4", "5", "6", "\u{266D}7"],
        pentatonic_variants: vec![vec![0, 1, 2, 4, 6], vec![0, 1, 2, 5, 6]],
    };
    assert(pentatonic_view(s1) =~= table_pentatonics(1, 1));
    let s2 = Scale {
        name: "Lydian \u{266F}5",
        intervals: vec![0, 2, 4, 6, 8, 9, 11],
        degree_labels: vec!["1", "2", "3", "\u{266F}4", "\u{266F}5", "6", "7"],
        pentatonic_variants: vec![vec![0, 2, 3, 4, 6], vec![0, 2, 4, 5, 6]],
    };
    assert(pentatonic_view(s2) =~= table_pentatonics(1, 2));
    let s3 = Scale {
        name: "Lydian \u{266D}7",
        intervals: vec![0, 2, 4, 6, 7, 9, 10],
        degree_labels: vec!["1", "2", "3", "\u{266F}4", "5", "6", "\u{266D}7"],
        pentatonic_variants: vec![vec![0, 2, 3, 4, 6], vec![0, 2, 3, 5, 6]],
    };
    assert(pentatonic_view(s3) =~= table_pentatonics(1, 3));
    let s4 = Scale {
        name: "Mixolydian \u{266D}6",
        intervals: vec![0, 2, 4, 5, 7, 8, 10],
        degree_labels: vec!["1", "2", "3", "4", "5", "\u{266D}6", "\u{266D}7"],
        pentatonic_variants: vec![vec![0, 2, 3, 5, 6], vec![0, 2, 4, 5, 6]],
    };
    assert(pentatonic_view(s4) =~= table_pentatonics(1, 4));
    let s5 = Scale {
        name: "Locrian \u{266E}2",
        intervals: vec![0, 2, 3, 5, 6, 8, 10],
        degree_labels: vec!["1", "2", "\u{266D}3", "4", "\u{266D}5", "\u{266D}6", "\u{266D}7"],
        pentatonic_variants: vec![vec![0, 2, 3, 4, 6], vec![0, 1, 2, 4, 6]],
    };
    assert(pentatonic_view(s5) =~= table_pentatonics(1, 5));
    let s6 = Scale {
        name: "Altered",
        intervals: vec![0, 1, 3, 4, 6, 8, 10],
        degree_labels: vec!["1", "\u{266D}2", "\u{266D}3", "\u{266D}4", "\u{266D}5", "\u{266D}6", "\u{266D}7"],
        pentatonic_variants: vec![vec![0, 2, 3, 4, 6], vec![0, 1, 2, 4, 6]],
    };
    assert(pentatonic_view(s6) =~= table_pentatonics(1, 6));
    let scales = vec![s0, s1, s2, s3, s4, s5, s6];
    assert(family_matches_table(scales@, 1)) by {
        assert forall|m: int| 0 <= m < scales@.len() implies scale_matches_table(#[trigger] scales@[m], 1, m) by {
            if m == 0 {
                assert(scales@[m] == s0);
            } else if m == 1 {
                assert(scales@[m] == s1);
            } else if m == 2 {
                assert(scales@[m] == s2);
            } else if m == 3 {
                assert(scales@[m] == s3);
            } else if m == 4 {
                assert(scales@[m] == s4);
            } else if m == 5 {
                assert(scales@[m] == s5);
            } else if m == 6 {
                assert(scales@[m] == s6);
            }
        }
    }
    scales
}

fn harmonic_minor_scales() -> (scales: Vec<Scale>)
    ensures
        family_matches_table(scales@, 2),
{
    let s0 = Scale {
        name: "Harmonic Minor",
        intervals: vec![0, 2, 3, 5, 7, 8, 11],
        degree_labels: vec!["1", "2", "\u{266D}3", "4", "5", "\u{266D}6", "7"],
        pentatonic_variants: vec![vec![0, 2, 3, 4, 6], vec![0, 2, 4, 5, 6]],
    };
    assert(pentatonic_view(s0) =~= table_pentatonics(2, 0));
    let s1 = Scale {
        name: "Locrian \u{266E}6",
        intervals: vec![0, 1, 3, 5, 6, 9, 10],
        degree_labels: vec!["1", "\u{266D}2", "\u{266D}3", "4", "\u{266D}5", "6", "\u{266D}7"],
        pentatonic_variants: vec![vec![0, 2, 3, 4, 6], vec![0, 2, 4, 5, 6]],
    };
    assert(pentatonic_view(s1) =~= table_pentatonics(2, 1));
    let s2 = Scale {
        name: "Ionian \u{266F}5",
        intervals: vec![0, 2, 4, 5, 8, 9, 11],
        degree_labels: vec!["1", "2", "3", "4", "\u{266F}5", "6", "7"],
        pentatonic_variants: vec![vec![0, 2, 3, 4, 6], vec![0, 2, 4, 5, 6]],
    };
    assert(pentatonic_view(s2) =~= table_pentatonics(2, 2));
    let s3 = Scale {
        name: "Dorian \u{266F}4",
        intervals: vec![0, 2, 3, 6, 7, 9, 10],
        degree_labels: vec!["1", "2", "\u{266D}3", "\u{266F}4", "5", "6", "\u{266D}7"],
        pentatonic_variants: vec![vec![0, 2, 3, 4, 6], vec![0, 2, 3, 5, 6]],
    };
    assert(pentatonic_view(s3) =~= table_pentatonics(2, 3));
    let s4 = Scale {
        name: "Phrygian Dominant",
        intervals: vec![0, 1, 4, 5, 7, 8, 10],
        degree_labels: vec!["1", "\u{266D}2", "3", "4", "5", "\u{266D}6", "\u{266D}7"],
        pentatonic_variants: vec![vec![0, 1, 2, 4, 6], vec![0, 1, 2, 5, 6]],
    };
    assert(pentatonic_view(s4) =~= table_pentatonics(2, 4));
    let s5 = Scale {
        name: "Lydian \u{266F}2",
        intervals: vec![0, 3, 4, 6, 7, 9, 11],
        degree_labels: vec!["1", "\u{266F}2", "3", "\u{266F}4", "5", "6", "7"],
        pentatonic_variants: vec![vec![0, 2, 3, 4, 6], vec![0, 1, 2, 4, 6]],
    };
    assert(pentatonic_view(s5) =~= table_pentatonics(2, 5));
    let s6 = Scale {
        name: "Altered \u{266D}\u{266D}7",
        intervals: vec![0, 1, 3, 4, 6, 8, 9],
        degree_labels: vec!["1", "\u{266D}2", "\u{266D}3", "\u{266D}4", "\u{266D}5", "\u{266D}6", "\u{266D}\u{266D}7"],
        pentatonic_variants: vec![vec![0, 2, 3, 4, 6], vec![0, 1, 2, 4, 6]],
    };
    assert(pentatonic_view(s6) =~= table_pentatonics(2, 6));
    let scales = vec![s0, s1, s2, s3, s4, s5, s6];
    assert(family_matches_table(scales@, 2)) by {
        assert forall|m: int| 0 <= m < scales@.len() implies scale_matches_table(#[trigger] scales@[m], 2, m) by {
            if m == 0 {
                assert(scales@[m] == s0);
            } else if m == 1 {
                assert(scales@[m] == s1);
            } else if m == 2 {
                assert(scales@[m] == s2);
            } else if m == 3 {
                assert(scales@[m] == s3);
            } else if m == 4 {
                assert(scales@[m] == s4);
            } else if m == 5 {
                assert(scales@[m] == s5);
            } else if m == 6 {
                assert(scales@[m] == s6);
            }
        }
    }
    scales
}

fn messiaen_scales() -> (scales: Vec<Scale>)
    ensures
        family_matches_table(scales@, 3),
{
    let s0 = Scale {
        name: "Mode 1",
        intervals: vec![0, 2, 4, 6, 8, 10],
        degree_labels: vec!["1", "2", "3", "\u{266F}4", "\u{266F}5", "\u{266D}7"],
        pentatonic_variants: Vec::new(),
    };
    assert(pentatonic_view(s0) =~= table_pentatonics(3, 0));
    let s1 = Scale {
        name: "Mode 2 (HW)",
        intervals: vec![0, 1, 3, 4, 6, 7, 9, 10],
        degree_labels: vec!["1", "\u{266D}2", "\u{266D}3", "3", "\u{266D}5", "5", "6", "\u{266D}7"],
        pentatonic_variants: Vec::new(),
    };
    assert(pentatonic_view(s1) =~= table_pentatonics(3, 1));
    let s2 = Scale {
        name: "Mode 2 (WH)",
        intervals: vec![0, 2, 3, 5, 6, 8, 9, 11],
        degree_labels: vec!["1", "2", "\u{266D}3", "4", "\u{266D}5", "\u{266D}6", "6", "7"],
        pentatonic_variants: Vec::new(),
    };
    assert(pentatonic_view(s2) =~= table_pentatonics(3, 2));
    let s3 = Scale {
        name: "Mode 3",
        intervals: vec![0, 2, 3, 4, 6, 7, 8, 10, 11],
        degree_labels: vec!["1", "2", "\u{266D}3", "3", "\u{266F}4", "5", "\u{266D}6", "\u{266D}7", "7"],
        pentatonic_variants: Vec::new(),
    };
    assert(pentatonic_view(s3) =~= table_pentatonics(3, 3));
    let s4 = Scale {
        name: "Mode 4",
        intervals: vec![0, 1, 2, 5, 6, 7, 8, 11],
        degree_labels: vec!["1", "\u{266D}2", "2", "4", "\u{266F}4", "5", "\u{266D}6", "7"],
        pentatonic_variants: Vec::new(),
    };
    assert(pentatonic_view(s4) =~= table_pentatonics(3, 4));
    let s5 = Scale {
        name: "Mode 5",
        intervals: vec![0, 1, 5, 6, 7, 11],
        degree_labels: vec!["1", "\u{266D}2", "4", "\u{266F}4", "5", "7"],
        pentatonic_variants: Vec::new(),
    };
    assert(pentatonic_view(s5) =~= table_pentatonics(3, 5));
    let s6 = Scale {
        name: "Mode 6",
        intervals: vec![0, 2, 4, 5, 6, 8, 10, 11],
        degree_labels: vec!["1", "2", "3", "4", "\u{266F}4", "\u{266D}6", "\u{266D}7", "7"],
        pentatonic_variants: Vec::new(),
    };
    assert(pentatonic_view(s6) =~= table_pentatonics(3, 6));
    let s7 = Scale {
        name: "Mode 7",
        intervals: vec![0, 1, 2, 3, 5, 6, 7, 8, 9, 11],
        degree_labels: vec!["1", "\u{266D}2", "2", "\u{266D}3", "4", "\u{266F}4", "5", "\u{266D}6", "6", "7"],
        pentatonic_variants: Vec::new(),
    };
    assert(pentatonic_view(s7) =~= table_pentatonics(3, 7));
    let scales = vec![s0, s1, s2, s3, s4, s5, s6, s7];
    assert(family_matches_table(scales@, 3)) by {
        assert forall|m: int| 0 <= m < scales@.len() implies scale_matches_table(#[trigger] scales@[m], 3, m) by {
            if m == 0 {
                assert(scales@[m] == s0);
            } else if m == 1 {
                assert(scales@[m] == s1);
            } else if m == 2 {
                assert(scales@[m] == s2);
            } else if m == 3 {
                assert(scales@[m] == s3);
            } else if m == 4 {
                assert(scales@[m] == s4);
            } else if m == 5 {
                assert(scales@[m] == s5);
            } else if m == 6 {
                assert(scales@[m] == s6);
            } else if m == 7 {
                assert(scales@[m] == s7);
            }
        }
    }
    scales
}

fn other_scales() -> (scales: Vec<Scale>)
    ensures
        family_matches_table(scales@, 4),
{
    let s0 = Scale {
        name: "Blues",
        intervals: vec![0, 3, 5, 6, 7, 10],
        degree_labels: vec!["1", "\u{266D}3", "4", "\u{266D}5", "5", "\u{266D}7"],
        pentatonic_variants: Vec::new(),
    };
    assert(pentatonic_view(s0) =~= table_pentatonics(4, 0));
    let scales = vec![s0];
    assert(family_matches_table(scales@, 4)) by {
        assert forall|m: int| 0 <= m < scales@.len() implies scale_matches_table(#[trigger] scales@[m], 4, m) by {
            if m == 0 {
                assert(scales@[m] == s0);
            }
        }
    }
    scales
}


/// All scale families of the built-in table: Major, Melodic Minor,
/// Harmonic Minor, Messiaen and Other.
pub fn all_families() -> (families: Vec<ScaleFamily>)
    ensures
        families@.len() == 5,
        forall|family: int| 0 <= family < 5 ==> family_matches_table(#[trigger] families@[family].scales@, family),
{
    let families = vec![
        ScaleFamily { name: "Major", scales: major_scales() },
        ScaleFamily { name: "Melodic Minor", scales: melodic_minor_scales() },
        ScaleFamily { name: "Harmonic Minor", scales: harmonic_minor_scales() },
        ScaleFamily { name: "Messiaen", scales: messiaen_scales() },
        ScaleFamily { name: "Other", scales: other_scales() },
    ];
    families
}

/// Every scale of the built-in table is well formed, and exactly the modes
/// of the first three families have seven notes.
pub proof fn lemma_table_well_formed(family: int, mode: int)
    requires
        0 <= family < 5,
        0 <= mode < family_len(family),
    ensures
        scale_well_formed(table_intervals(family, mode), table_intervals(family, mode).len(), table_pentatonics(family, mode)),
        (table_intervals(family, mode).len() == 7) <==> family < 3,
{
    let iv = table_intervals(family, mode);
    let pv = table_pentatonics(family, mode);
    assert(iv.len() > 0 && iv[0] == 0);
    assert forall|i: int| 0 <= i < iv.len() implies #[trigger] iv[i] < 12 by {}
    assert forall|i: int, j: int| 0 <= i < j < iv.len() implies iv[i] < iv[j] by {}
    assert forall|v: int| 0 <= v < pv.len() implies (#[trigger] pv[v]).len() == 5 by {}
    assert forall|v: int, k: int| 0 <= v < pv.len() && 0 <= k < 5 implies (#[trigger] pv[v][k]) < iv.len() by {}
}

/// The twelve pitch-class names, starting at C.
pub open spec fn spec_note_name(pitch_class: int) -> Seq<char> {
    if pitch_class == 0 { "C"@ }
    else if pitch_class == 1 { "C\u{266F}"@ }
    else if pitch_class == 2 { "D"@ }
    else if pitch_class == 3 { "E\u{266D}"@ }
    else if pitch_class == 4 { "E"@ }
    else if pitch_class == 5 { "F"@ }
    else if pitch_class == 6 { "F\u{266F}"@ }
    else if pitch_class == 7 { "G"@ }
    else if pitch_class == 8 { "A\u{266D}"@ }
    else if pitch_class == 9 { "A"@ }
    else if pitch_class == 10 { "B\u{266D}"@ }
    else { "B"@ }
}

/// Name of a pitch class (0 = C … 11 = B).
pub fn note_name(pitch_class: usize) -> (name: &'static str)
    requires
        pitch_class < 12,
    ensures
        name@ == spec_note_name(pitch_class as int),
{
    if pitch_class == 0 { "C" }
    else if pitch_class == 1 { "C\u{266F}" }
    else if pitch_class == 2 { "D" }
    else if pitch_class == 3 { "E\u{266D}" }
    else if pitch_class == 4 { "E" }
    else if pitch_class == 5 { "F" }
    else if pitch_class == 6 { "F\u{266F}" }
    else if pitch_class == 7 { "G" }
    else if pitch_class == 8 { "A\u{266D}" }
    else if pitch_class == 9 { "A" }
    else if pitch_class == 10 { "B\u{266D}" }
    else { "B" }
}

/// All twelve pitch-class names in order.
pub fn note_names() -> (names: Vec<&'static str>)
    ensures
        names@.len() == 12,
        forall|i: int| 0 <= i < 12 ==> (#[trigger] names@[i])@ == spec_note_name(i),
{
    let mut names: Vec<&'static str> = Vec::new();
    let mut pitch_class: usize = 0;
    while pitch_class < 12
        invariant
            pitch_class <= 12,
            names@.len() == pitch_class,
            forall|i: int| 0 <= i < pitch_class ==> (#[trigger] names@[i])@ == spec_note_name(i),
        decreases 12 - pitch_class,
    {
        names.push(note_name(pitch_class));
        pitch_class += 1;
    }
    names
}

/// Semitones from C0 of each open string in standard tuning, low E first.
pub open spec fn spec_standard_tuning(string_index: int) -> u8 {
    if string_index == 0 { 4 }
    else if string_index == 1 { 9 }
    else if string_index == 2 { 14 }
    else if string_index == 3 { 19 }
    else if string_index == 4 { 23 }
    else { 28 }
}

/// Open-string pitch (semitones from C0) in standard tuning, low E first.
pub fn standard_tuning(string_index: usize) -> (pitch: u8)
    requires
        string_index < 6,
    ensures
        pitch == spec_standard_tuning(string_index as int),
{
    if string_index == 0 { 4 }
    else if string_index == 1 { 9 }
    else if string_index == 2 { 14 }
    else if string_index == 3 { 19 }
    else if string_index == 4 { 23 }
    else { 28 }
}

/// The fret positions that carry an inlay marker, and those with a double one.
pub fn fret_markers() -> (markers: Vec<usize>)
    ensures
        markers@ == seq![3usize, 5, 7, 9, 12, 15, 17, 19, 21, 24],
{
    vec![3, 5, 7, 9, 12, 15, 17, 19, 21, 24]
}

pub fn double_markers() -> (markers: Vec<usize>)
    ensures
        markers@ == seq![12usize, 24],
{
    vec![12, 24]
}

/// Pitch class of `note` relative to `root` (both absolute pitches).
pub open spec fn semitones_from_root(note: u8, root: u8) -> int {
    (note as int - root as int) % 12
}

/// The scale degree (0-based) of `note` in the scale rooted at `root`, or
/// `None` when the note is not in the scale. Only pitch classes matter.
pub fn scale_degree(note: u8, root: u8, scale: &Scale) -> (degree: Option<usize>)
    ensures
        match degree {
            Some(d) => d < scale.intervals@.len()
                && scale.intervals@[d as int] == semitones_from_root(note, root)
                && forall|j: int| 0 <= j < d ==> scale.intervals@[j] != semitones_from_root(note, root),
            None => forall|j: int| 0 <= j < scale.intervals@.len()
                ==> scale.intervals@[j] != semitones_from_root(note, root),
        },
{
    let difference: i16 = note as i16 - root as i16;
    let semitones: u8 = if difference >= 0 {
        (difference % 12) as u8
    } else {
        let r: i16 = (-difference) % 12;
        if r == 0 { 0 } else { (12 - r) as u8 }
    };
    assert(semitones == semitones_from_root(note, root));
    let mut index: usize = 0;
    while index < scale.intervals.len()
        invariant
            index <= scale.intervals@.len(),
            semitones == semitones_from_root(note, root),
            forall|j: int| 0 <= j < index ==> scale.intervals@[j] != semitones,
        decreases scale.intervals@.len() - index,
    {
        if scale.intervals[index] == semitones {
            return Some(index);
        }
        index += 1;
    }
    None
}

/// Diatonic chords can be stacked in thirds only on seven-note scales.
pub fn has_diatonic_chords(scale: &Scale) -> (supported: bool)
    ensures
        supported == (scale.intervals@.len() == 7),
{
    scale.intervals.len() == 7
}

/// Absolute pitch (semitones from C0) at `fret` on `string_index` in
/// standard tuning; not reduced to a pitch class. The fret is taken as a
/// byte, so only its value modulo 256 counts.
pub fn note_at_fret(string_index: usize, fret: usize) -> (pitch: u8)
    requires
        string_index < 6,
        spec_standard_tuning(string_index as int) + fret % 256 <= u8::MAX,
    ensures
        pitch == spec_standard_tuning(string_index as int) + fret % 256,
{
    let fret_byte: u8 = (fret % 256) as u8;
    standard_tuning(string_index) + fret_byte
}

} // verus!
