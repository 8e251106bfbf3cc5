use metronome::gp5_parser::{Gp5Error, ReadError};
use metronome::gp5_score::{parse, parse_for_track};
use metronome::tab_models::{NoteDuration, SongTempo, TabNote};

fn put_int(out: &mut Vec<u8>, value: i32) {
    out.extend_from_slice(&value.to_le_bytes());
}

fn zeros(out: &mut Vec<u8>, count: usize) {
    out.extend(std::iter::repeat(0u8).take(count));
}

fn byte_size_string(out: &mut Vec<u8>, text: &str, width: usize) {
    out.push(text.len() as u8);
    out.extend_from_slice(text.as_bytes());
    zeros(out, width - text.len());
}

/// A Guitar Pro 5.00 file up to the bar and track counts.
fn header(bars: i32, tracks: i32, tempo: i32) -> Vec<u8> {
    let mut out = Vec::new();
    byte_size_string(&mut out, "FICHIER GUITAR PRO v5.00", 30);
    for _ in 0..9 {
        put_int(&mut out, 0); // empty song attribute strings
    }
    put_int(&mut out, 0); // notices
    put_int(&mut out, 0); // lyrics track
    for _ in 0..5 {
        put_int(&mut out, 0); // start bar
        put_int(&mut out, 0); // empty lyric line
    }
    zeros(&mut out, 30); // page setup
    for _ in 0..11 {
        put_int(&mut out, 0);
    }
    put_int(&mut out, tempo);
    out.push(0); // key
    put_int(&mut out, 0); // octave
    zeros(&mut out, 64 * 12); // MIDI channels
    zeros(&mut out, 38); // directions
    put_int(&mut out, 0); // master reverb
    put_int(&mut out, bars);
    put_int(&mut out, tracks);
    out
}

fn track(out: &mut Vec<u8>, name: &str, channel: i32) {
    out.push(0); // separator (every track in 5.00)
    out.push(0); // flags
    byte_size_string(out, name, 40);
    put_int(out, 6); // strings
    for pitch in [64, 59, 55, 50, 45, 40, 0] {
        put_int(out, pitch);
    }
    put_int(out, 1); // port
    put_int(out, channel);
    put_int(out, channel); // effects channel
    put_int(out, 24); // frets
    put_int(out, 0); // capo
    zeros(out, 4 + 4 + 1 + 12 + 12 + 12 + 3);
}

/// A quarter-note beat with one note on string 1 (or a rest).
fn beat(out: &mut Vec<u8>, fret: Option<i8>) {
    match fret {
        Some(fret) => {
            out.push(0x00); // flags
            out.push(0); // quarter
            out.push(0x40); // string 1
            out.push(0x20); // note flags: type and fret
            out.push(1); // normal note
            out.push(fret as u8);
            out.push(0); // padding
        }
        None => {
            out.push(0x40); // rest status follows
            out.push(2); // rest
            out.push(1); // eighth
            out.push(0); // no strings
        }
    }
    out.extend_from_slice(&0i16.to_le_bytes());
}

fn one_bar_song(tracks: &[(&str, i32)]) -> Vec<u8> {
    let mut out = header(1, tracks.len() as i32, 120);
    out.push(0x03); // time signature change
    out.push(3);
    out.push(4);
    zeros(&mut out, 4); // beams
    out.push(0); // skip when no alternate endings
    out.push(0); // triplet feel
    for (name, channel) in tracks {
        track(&mut out, name, *channel);
    }
    out.push(0); // separator before beats
    for (index, _) in tracks.iter().enumerate() {
        put_int(&mut out, 2);
        beat(&mut out, Some(index as i8 + 3));
        beat(&mut out, None);
        put_int(&mut out, 0); // second voice
        out.push(0); // separator
    }
    out
}

#[test]
fn test_parse_one_bar() {
    let data = one_bar_song(&[("Guitar", 1)]);
    let (score, track) = parse(data).unwrap();
    assert_eq!(track, 0);
    assert_eq!(score.bars.len(), 1);
    assert_eq!(score.bars[0].time_sig_num, 3);
    assert_eq!(score.bars[0].time_sig_denom, 4);
    assert_eq!(score.bars[0].beat_count, 2);
    assert_eq!(score.beats.len(), 2);
    assert_eq!(score.beats[0].notes, vec![TabNote { string: 1, fret: 3 }]);
    assert!(!score.beats[0].is_rest);
    assert_eq!(score.beats[0].duration, NoteDuration { value: 0, dotted: false, tuplet_enters: 1, tuplet_times: 1 });
    assert!(score.beats[1].is_rest);
    assert_eq!(score.beats[1].duration.value, 1);
    assert_eq!(score.tracks[0].name, "Guitar");
    assert_eq!(score.tracks[0].tuning, vec![40, 45, 50, 55, 59, 64]);
    assert_eq!(score.tracks[0].midi_channel, 0);
    assert!(matches!(score.tempo, SongTempo::Bpm(120)));
}

#[test]
fn test_default_track_skips_drums() {
    let data = one_bar_song(&[("Drums", 10), ("Bass", 2)]);
    let (score, track) = parse(data).unwrap();
    assert_eq!(track, 1);
    assert_eq!(score.tracks[0].midi_channel, 9);
    assert_eq!(score.beats[0].notes[0].fret, 4);
}

#[test]
fn test_parse_for_track() {
    let data = one_bar_song(&[("Drums", 10), ("Bass", 2)]);
    let score = parse_for_track(data, 0).unwrap();
    assert_eq!(score.beats[0].notes[0].fret, 3);
}

#[test]
fn test_track_out_of_range() {
    let data = one_bar_song(&[("Guitar", 1)]);
    match parse_for_track(data, 4) {
        Err(Gp5Error::InvalidFormat(message)) => assert_eq!(message, "Track index 4 out of range (1)"),
        other => panic!("unexpected: {:?}", other.err()),
    }
}

#[test]
fn test_no_bars_is_invalid() {
    let data = header(0, 1, 120);
    match parse(data) {
        Err(Gp5Error::InvalidFormat(message)) => assert_eq!(message, "No bars or tracks in file"),
        other => panic!("unexpected: {:?}", other.err()),
    }
}

#[test]
fn test_unsupported_version() {
    let mut data = Vec::new();
    byte_size_string(&mut data, "FICHIER GUITAR PRO v4.06", 30);
    match parse(data) {
        Err(Gp5Error::UnsupportedVersion(version)) => assert_eq!(version, "FICHIER GUITAR PRO v4.06"),
        other => panic!("unexpected: {:?}", other.err()),
    }
}

#[test]
fn test_truncated_file_is_unexpected_end() {
    let data = one_bar_song(&[("Guitar", 1)]);
    let cut = data[..data.len() - 5].to_vec();
    assert!(matches!(parse(cut), Err(Gp5Error::Io(ReadError::UnexpectedEof))));
    assert!(matches!(parse(Vec::new()), Err(Gp5Error::Io(ReadError::UnexpectedEof))));
}

#[test]
fn errors_read_as_the_application_shows_them() {
    assert_eq!(Gp5Error::InvalidFormat("bad header".to_string()).message(), "Invalid GP5: bad header");
    assert_eq!(Gp5Error::UnsupportedVersion("FICHIER GUITAR PRO v4.06".to_string()).message(), "Unsupported version: FICHIER GUITAR PRO v4.06");
    assert_eq!(Gp5Error::Io(ReadError::UnexpectedEof).message(), "IO error: failed to fill whole buffer");
}

#[test]
fn track_names_that_are_not_utf8_are_read_lossily() {
    let mut data = one_bar_song(&[("Guitar", 1)]);
    let at = data.windows(6).position(|window| window == b"Guitar").unwrap();
    data[at + 2] = 0xFF;
    let (score, _) = parse(data).unwrap();
    assert_eq!(score.tracks[0].name, "Gu\u{FFFD}tar");
}
