use metronome::chord_builder::VoicingNote;
use metronome::voicing_text::{labels_text, parse_labels, parse_voicing, voicing_text};

fn note(string_index: usize, fret: usize, label: &str) -> VoicingNote {
    VoicingNote { string_index, fret, label: label.to_string() }
}

#[test]
fn a_voicing_is_written_as_pairs() {
    let voicing = vec![note(5, 3, "R"), note(4, 2, "3"), note(3, 10, "5")];
    assert_eq!(voicing_text(&voicing), "5,3;4,2;3,10");
    assert_eq!(labels_text(&voicing), "R,3,5");
    assert_eq!(voicing_text(&Vec::new()), "");
}

#[test]
fn written_voicings_read_back() {
    let voicing = vec![note(5, 3, "R"), note(4, 2, "3"), note(0, 0, "5")];
    assert_eq!(parse_voicing(&voicing_text(&voicing)), vec![(5, 3), (4, 2), (0, 0)]);
    assert_eq!(parse_labels(&labels_text(&voicing)), vec!["R", "3", "5"]);
}

#[test]
fn unreadable_pairs_are_skipped() {
    assert_eq!(parse_voicing(""), Vec::<(usize, usize)>::new());
    assert_eq!(parse_voicing("a,b;1,2;3"), vec![(1, 2)]);
    assert_eq!(parse_voicing("1,2,9"), vec![(1, 2)]);
    assert_eq!(parse_voicing("+1,2;-1,2"), vec![(1, 2)]);
    assert_eq!(parse_voicing(";"), Vec::<(usize, usize)>::new());
}

#[test]
fn labels_split_at_commas() {
    assert_eq!(parse_labels(""), Vec::<String>::new());
    assert_eq!(parse_labels("R"), vec!["R"]);
    assert_eq!(parse_labels(","), vec!["", ""]);
}
