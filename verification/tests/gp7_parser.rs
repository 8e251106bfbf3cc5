use metronome::gp7_parser::{parse_file, parse_file_for_track, parse_gpif, read_gpif_xml, Gp7Error};
use std::io::Write;
use metronome::tab_models::{NoteDuration, SongTempo, TabNote};

const SCORE: &str = "<GPIF>
<Score>
<Title><![CDATA[Etude]]></Title>
<Artist><![CDATA[Someone]]></Artist>
</Score>
<MasterTrack>
<Tracks>0</Tracks>
<Automations>
<Automation>
<Type>Tempo</Type>
<Value>96 2</Value>
</Automation>
</Automations>
</MasterTrack>
<Tracks>
<Track id=\"0\">
<Name><![CDATA[Lead]]></Name>
<Properties>
<Property name=\"Tuning\">
<Pitches>40 45 50 55 59 64</Pitches>
</Property>
<Property name=\"CapoFret\">
<Fret>2</Fret>
</Property>
</Properties>
</Track>
</Tracks>
<MasterBars>
<MasterBar>
<Time>3/4</Time>
<Bars>0</Bars>
</MasterBar>
<MasterBar>
<Time>4/4</Time>
<Bars>1</Bars>
</MasterBar>
<MasterBar>
<Time>4/4</Time>
<Bars>9</Bars>
</MasterBar>
</MasterBars>
<Bars>
<Bar id=\"0\">
<Voices>0 -1 -1 -1</Voices>
</Bar>
<Bar id=\"1\">
<Voices>1 -1 -1 -1</Voices>
</Bar>
</Bars>
<Voices>
<Voice id=\"0\">
<Beats>0 1</Beats>
</Voice>
<Voice id=\"1\">
<Beats>2</Beats>
</Voice>
</Voices>
<Beats>
<Beat id=\"0\">
<Rhythm ref=\"0\"/>
<Notes>0 1</Notes>
</Beat>
<Beat id=\"1\">
<Rhythm ref=\"1\"/>
</Beat>
<Beat id=\"2\">
<Rhythm ref=\"7\"/>
<Notes>2</Notes>
</Beat>
</Beats>
<Notes>
<Note id=\"0\">
<Properties>
<Property name=\"Fret\">
<Fret>3</Fret>
</Property>
<Property name=\"String\">
<String>5</String>
</Property>
</Properties>
</Note>
<Note id=\"1\">
<Properties>
<Property name=\"Fret\">
<Fret>0</Fret>
</Property>
<Property name=\"String\">
<String>0</String>
</Property>
</Properties>
</Note>
<Note id=\"2\">
<Properties>
<Property name=\"Fret\">
<Fret>12</Fret>
</Property>
<Property name=\"String\">
<String>2</String>
</Property>
</Properties>
</Note>
</Notes>
<Rhythms>
<Rhythm id=\"0\">
<NoteValue>Eighth</NoteValue>
<AugmentationDot count=\"1\"/>
</Rhythm>
<Rhythm id=\"1\">
<NoteValue>Quarter</NoteValue>
<PrimaryTuplet>
<Num>3</Num>
<Den>2</Den>
</PrimaryTuplet>
</Rhythm>
</Rhythms>
</GPIF>";

#[test]
fn test_parse_gpif_builds_score() {
    let (score, track) = parse_gpif(SCORE, None).unwrap();
    assert_eq!(track, 0);
    assert_eq!(score.title, "Etude");
    assert_eq!(score.artist, "Someone");
    assert!(matches!(&score.tempo, SongTempo::Written(text) if text == "96"));
    assert_eq!(score.tracks.len(), 1);
    assert_eq!(score.tracks[0].name, "Lead");
    assert_eq!(score.tracks[0].capo, 2);
    assert_eq!(score.tracks[0].string_count, 6);
    assert_eq!(score.bars.len(), 2);
    assert_eq!(score.bars[1].index, 1);
    assert_eq!(score.bars[0].time_sig_num, 3);
    assert_eq!(score.bars[0].beat_count, 2);
    assert_eq!(score.bars[1].first_beat_index, 2);
    assert_eq!(score.beats.len(), 3);
    assert_eq!(score.beats[0].notes, vec![TabNote { string: 1, fret: 3 }, TabNote { string: 6, fret: 0 }]);
    assert_eq!(score.beats[0].duration, NoteDuration { value: 1, dotted: true, tuplet_enters: 1, tuplet_times: 1 });
    assert!(score.beats[1].is_rest);
    assert_eq!(score.beats[1].duration, NoteDuration { value: 0, dotted: false, tuplet_enters: 3, tuplet_times: 2 });
    assert_eq!(score.beats[2].duration, NoteDuration { value: 0, dotted: false, tuplet_enters: 1, tuplet_times: 1 });
    assert_eq!(score.beats[2].notes, vec![TabNote { string: 4, fret: 12 }]);
    assert_eq!(score.beats[2].bar_index, 1);
}

#[test]
fn test_parse_gpif_track_without_bars_uses_bar_zero() {
    let (score, track) = parse_gpif(SCORE, Some(3)).unwrap();
    assert_eq!(track, 3);
    assert_eq!(score.bars.len(), 3);
    assert_eq!(score.bars[2].index, 2);
    assert_eq!(score.bars[2].first_beat_index, 4);
    assert_eq!(score.beats.len(), 6);
    assert_eq!(score.beats[5].bar_index, 2);
}

#[test]
fn test_parse_gpif_empty_document() {
    let (score, track) = parse_gpif("", None).unwrap();
    assert_eq!(track, 0);
    assert!(score.bars.is_empty());
    assert!(score.beats.is_empty());
    assert!(score.tracks.is_empty());
    assert_eq!(score.title, "");
    assert!(matches!(score.tempo, SongTempo::Unset));
}

#[test]
fn score_errors_read_as_the_application_shows_them() {
    assert_eq!(Gp7Error::Zip("no score".to_string()).message(), "ZIP error: no score");
    assert_eq!(Gp7Error::Io("denied".to_string()).message(), "IO error: denied");
    assert_eq!(Gp7Error::Xml("broken".to_string()).message(), "XML error: broken");
}

fn archive(entries: &[(&str, &[u8])]) -> Vec<u8> {
    let mut writer = zip::ZipWriter::new(std::io::Cursor::new(Vec::new()));
    for (name, content) in entries {
        writer.start_file(*name, zip::write::SimpleFileOptions::default()).unwrap();
        writer.write_all(content).unwrap();
    }
    writer.finish().unwrap().into_inner()
}

#[test]
fn archive_score_document_is_read() {
    let data = archive(&[("Content/score.gpif", SCORE.as_bytes())]);
    assert_eq!(read_gpif_xml(&data).unwrap(), SCORE);
}

#[test]
fn archive_is_parsed_as_its_score_document() {
    let data = archive(&[("Content/other.xml", b"<x/>"), ("Content/score.gpif", SCORE.as_bytes())]);
    let (score, track) = parse_file(&data).unwrap();
    let (direct, direct_track) = parse_gpif(SCORE, None).unwrap();
    assert_eq!(track, direct_track);
    assert_eq!(score.title, "Etude");
    assert_eq!(score.beats.len(), direct.beats.len());
    for (got, want) in score.beats.iter().zip(direct.beats.iter()) {
        assert_eq!(got.notes, want.notes);
        assert_eq!(got.duration, want.duration);
        assert_eq!(got.bar_index, want.bar_index);
    }
    assert_eq!(score.bars, direct.bars);
    let (chosen, chosen_track) = parse_file_for_track(&data, 3).unwrap();
    assert_eq!(chosen_track, 3);
    assert_eq!(chosen.beats.len(), 6);
}

#[test]
fn bytes_that_are_no_archive_are_a_zip_error() {
    let result = parse_file(&b"not a zip archive at all".to_vec());
    assert!(matches!(result, Err(Gp7Error::Zip(_))));
}

#[test]
fn archive_without_score_document_is_a_zip_error() {
    let data = archive(&[("Content/other.xml", b"<x/>")]);
    match parse_file(&data) {
        Err(Gp7Error::Zip(message)) => assert!(message.starts_with("score.gpif not found: ")),
        _ => panic!("expected a zip error"),
    }
}

#[test]
fn score_document_that_is_no_text_is_an_io_error() {
    let data = archive(&[("Content/score.gpif", &[0xff, 0xfe, 0x00])]);
    assert!(matches!(parse_file(&data), Err(Gp7Error::Io(_))));
}
