//! The Guitar Pro 5 (.gp5, versions 5.00 and 5.10) binary layout, written as
//! functions on byte sequences. Each function reads one section starting at
//! a position and gives the value read and the position after it, or the
//! reason the bytes do not hold such a section. The parser in `gp5_parser`
//! is proved to follow these functions exactly.
//!
//! All integers are little-endian. Skips only move the position; reading
//! past the end of the data fails, moving before its start fails.
use vstd::prelude::*;
use crate::tab_models::{TabNote, NoteDuration, TrackView};
use crate::text::{contains_pattern, decimal};

verus! {

#[derive(Debug, Clone, Copy, PartialEq, Eq, Structural)]
pub enum GpVersion {
    Gp500,
    Gp510,
}

impl View for GpVersion {
    type V = GpVersion;

    open spec fn view(&self) -> GpVersion {
        *self
    }
}

/// Why a section could not be read.
pub enum Gp5Failure {
    UnexpectedEnd,
    InvalidSeek,
    InvalidFormat(Seq<char>),
    UnsupportedVersion(Seq<char>),
}

/// A read from position `p`: the value and the position after it.
pub type Step<T> = Result<(T, int), Gp5Failure>;

/// `String::from_utf8_lossy` from std: the text of a byte sequence, with
/// each invalid UTF-8 sequence replaced by U+FFFD.
pub uninterp spec fn utf8_lossy_chars(bytes: Seq<u8>) -> Seq<char>;

/// The largest stream position a seek can reach.
pub open spec fn max_position() -> int {
    0x7fff_ffff_ffff_ffff
}

pub open spec fn read_u8(d: Seq<u8>, p: int) -> Step<u8> {
    if 0 <= p < d.len() { Ok((d[p], p + 1)) } else { Err(Gp5Failure::UnexpectedEnd) }
}

pub open spec fn signed_byte(b: u8) -> i8 {
    if b < 128 { b as i8 } else { (b as int - 256) as i8 }
}

pub open spec fn read_i8(d: Seq<u8>, p: int) -> Step<i8> {
    match read_u8(d, p) {
        Ok((b, q)) => Ok((signed_byte(b), q)),
        Err(e) => Err(e),
    }
}

pub open spec fn read_i16(d: Seq<u8>, p: int) -> Step<i16> {
    if 0 <= p && p + 2 <= d.len() {
        let v = d[p] as int + 256 * d[p + 1] as int;
        Ok((if v < 32768 { v as i16 } else { (v - 65536) as i16 }, p + 2))
    } else {
        Err(Gp5Failure::UnexpectedEnd)
    }
}

pub open spec fn read_i32(d: Seq<u8>, p: int) -> Step<i32> {
    if 0 <= p && p + 4 <= d.len() {
        let v = d[p] as int + 256 * d[p + 1] as int + 65536 * d[p + 2] as int + 16777216 * d[p + 3] as int;
        Ok((if v < 0x8000_0000 { v as i32 } else { (v - 0x1_0000_0000) as i32 }, p + 4))
    } else {
        Err(Gp5Failure::UnexpectedEnd)
    }
}

/// Moving the position by `count` bytes (forward or back).
pub open spec fn skip(p: int, count: int) -> Step<()> {
    if 0 <= p + count <= max_position() { Ok(((), p + count)) } else { Err(Gp5Failure::InvalidSeek) }
}

/// A count stored as a signed int, taken as an unsigned machine word.
pub open spec fn count_of(n: i32) -> nat {
    if n >= 0 { n as nat } else { (n + 0x1_0000_0000_0000_0000) as nat }
}

/// ByteSizeString: a length byte, then `max` bytes (or `length`, if more);
/// the text is the first `length` of them.
pub open spec fn read_byte_size_string(d: Seq<u8>, p: int, max: int) -> Step<Seq<char>> {
    match read_u8(d, p) {
        Ok((length, q)) => {
            let width = if max >= length { max } else { length as int };
            if q + width <= d.len() {
                Ok((utf8_lossy_chars(d.subrange(q, q + length)), q + width))
            } else {
                Err(Gp5Failure::UnexpectedEnd)
            }
        },
        Err(e) => Err(e),
    }
}

/// The padding skipped after an IntByteSizeString's text: what is left of
/// the declared total, the total taken as a machine word.
pub open spec fn string_padding(total: i32, length: u8) -> int {
    if total >= 0 {
        if total - length - 1 > 0 { total - length - 1 } else { 0 }
    } else {
        total - length - 1
    }
}

/// IntByteSizeString: an int total length; when non-zero, a length byte,
/// the text, and padding up to the total.
pub open spec fn read_int_byte_size_string(d: Seq<u8>, p: int) -> Step<Seq<char>> {
    match read_i32(d, p) {
        Ok((total, q)) => {
            if total == 0 {
                Ok((Seq::empty(), q))
            } else {
                match read_u8(d, q) {
                    Ok((length, r)) => {
                        if r + length <= d.len() {
                            let text = utf8_lossy_chars(d.subrange(r, r + length));
                            let padding = string_padding(total, length);
                            if padding != 0 {
                                match skip(r + length, padding) {
                                    Ok((_, s)) => Ok((text, s)),
                                    Err(e) => Err(e),
                                }
                            } else {
                                Ok((text, r + length))
                            }
                        } else {
                            Err(Gp5Failure::UnexpectedEnd)
                        }
                    },
                    Err(e) => Err(e),
                }
            }
        },
        Err(e) => Err(e),
    }
}

/// IntSizeString: an int length, then the text.
pub open spec fn read_int_size_string(d: Seq<u8>, p: int) -> Step<Seq<char>> {
    match read_i32(d, p) {
        Ok((length, q)) => {
            if 0 <= length && q + length <= d.len() {
                Ok((utf8_lossy_chars(d.subrange(q, q + length)), q + length))
            } else {
                Err(Gp5Failure::UnexpectedEnd)
            }
        },
        Err(e) => Err(e),
    }
}

/// `count` IntByteSizeStrings in a row, their text discarded.
pub open spec fn read_strings(d: Seq<u8>, p: int, count: nat) -> Step<()>
    decreases count,
{
    if count == 0 {
        Ok(((), p))
    } else {
        match read_int_byte_size_string(d, p) {
            Ok((_, q)) => read_strings(d, q, (count - 1) as nat),
            Err(e) => Err(e),
        }
    }
}

/// `count` skips of `width` bytes each.
pub open spec fn skip_repeated(p: int, width: int, count: nat) -> Step<()>
    decreases count,
{
    if count == 0 {
        Ok(((), p))
    } else {
        match skip(p, width) {
            Ok((_, q)) => skip_repeated(q, width, (count - 1) as nat),
            Err(e) => Err(e),
        }
    }
}

/// With a positive width, `count` skips land at `p + width * count` when
/// that is a reachable position, and fail otherwise.
pub proof fn lemma_skip_repeated_closed(p: int, width: int, count: nat)
    requires
        0 <= p <= max_position(),
        width > 0,
    ensures
        skip_repeated(p, width, count) == (if p + width * count <= max_position() {
            Ok::<((), int), Gp5Failure>(((), p + width * count))
        } else {
            Err::<((), int), Gp5Failure>(Gp5Failure::InvalidSeek)
        }),
    decreases count,
{
    if count > 0 {
        let rest = (count - 1) as nat;
        assert(width * count == width + width * rest) by (nonlinear_arith)
            requires count == rest + 1;
        assert(width * rest >= 0) by (nonlinear_arith)
            requires width > 0;
        if p + width <= max_position() {
            lemma_skip_repeated_closed(p + width, width, rest);
        }
    } else {
        assert(width * count == 0) by (nonlinear_arith)
            requires count == 0;
    }
}

/// The version header: "v5.10" anywhere in it means 5.10, else "v5.0" means 5.00.
pub open spec fn read_version(d: Seq<u8>, p: int) -> Step<GpVersion> {
    match read_byte_size_string(d, p, 30) {
        Ok((text, q)) => {
            if contains_pattern(text, "v5.10"@) {
                Ok((GpVersion::Gp510, q))
            } else if contains_pattern(text, "v5.00"@) || contains_pattern(text, "v5.0"@) {
                Ok((GpVersion::Gp500, q))
            } else {
                Err(Gp5Failure::UnsupportedVersion(text))
            }
        },
        Err(e) => Err(e),
    }
}

/// Lyrics: the lyrics track, then five (start bar, IntSizeString text) lines.
pub open spec fn read_lyric_lines(d: Seq<u8>, p: int, count: nat) -> Step<()>
    decreases count,
{
    if count == 0 {
        Ok(((), p))
    } else {
        match read_i32(d, p) {
            Ok((_, q)) => match read_int_size_string(d, q) {
                Ok((_, r)) => read_lyric_lines(d, r, (count - 1) as nat),
                Err(e) => Err(e),
            },
            Err(e) => Err(e),
        }
    }
}

pub open spec fn read_lyrics(d: Seq<u8>, p: int) -> Step<()> {
    match read_i32(d, p) {
        Ok((_, q)) => read_lyric_lines(d, q, 5),
        Err(e) => Err(e),
    }
}

/// `count` single bytes, discarded.
pub open spec fn read_bytes(d: Seq<u8>, p: int, count: nat) -> Step<()>
    decreases count,
{
    if count == 0 {
        Ok(((), p))
    } else {
        match read_u8(d, p) {
            Ok((_, q)) => read_bytes(d, q, (count - 1) as nat),
            Err(e) => Err(e),
        }
    }
}

/// RSE master effect (5.10 only): master volume, 4 padding bytes, 11 EQ bands.
pub open spec fn read_rse_master_effect(d: Seq<u8>, p: int, v: GpVersion) -> Step<()> {
    if v == GpVersion::Gp510 {
        match read_i32(d, p) {
            Ok((_, q)) => match skip(q, 4) {
                Ok((_, r)) => read_bytes(d, r, 11),
                Err(e) => Err(e),
            },
            Err(e) => Err(e),
        }
    } else {
        Ok(((), p))
    }
}

/// Page setup: 30 bytes of layout, then 11 header/footer strings. A string
/// that cannot be read is reported as an unexpected end.
pub open spec fn read_page_setup(d: Seq<u8>, p: int) -> Step<()> {
    match skip(p, 30) {
        Ok((_, q)) => match read_strings(d, q, 11) {
            Ok(r) => Ok(r),
            Err(_) => Err(Gp5Failure::UnexpectedEnd),
        },
        Err(e) => Err(e),
    }
}

/// Song attributes: nine strings, the notices, lyrics, RSE master effect and page setup.
pub open spec fn read_song_attributes(d: Seq<u8>, p: int, v: GpVersion) -> Step<()> {
    match read_strings(d, p, 9) {
        Ok((_, q)) => match read_i32(d, q) {
            Ok((notices, r)) => match read_strings(d, r, count_of(notices)) {
                Ok((_, s)) => match read_lyrics(d, s) {
                    Ok((_, t)) => match read_rse_master_effect(d, t, v) {
                        Ok((_, u)) => read_page_setup(d, u),
                        Err(e) => Err(e),
                    },
                    Err(e) => Err(e),
                },
                Err(e) => Err(e),
            },
            Err(e) => Err(e),
        },
        Err(e) => Err(e),
    }
}

/// One measure header as the parser keeps it.
#[derive(Debug, Clone, Copy, PartialEq, Eq, Structural)]
pub struct MeasureHeader {
    pub time_sig_num: u8,
    pub time_sig_denom: u8,
    pub tempo: i32,
    pub has_repeat_start: bool,
    pub repeat_close_count: u8,
}

impl View for MeasureHeader {
    type V = MeasureHeader;

    open spec fn view(&self) -> MeasureHeader {
        *self
    }
}

/// A byte that follows only when `present`; its value when it does.
pub open spec fn read_u8_if(d: Seq<u8>, p: int, present: bool, absent: u8) -> Step<u8> {
    if present { read_u8(d, p) } else { Ok((absent, p)) }
}

pub open spec fn skip_if(p: int, present: bool, count: int) -> Step<()> {
    if present { skip(p, count) } else { Ok(((), p)) }
}

/// The marker of a measure header: its name and a 4-byte colour.
pub open spec fn read_marker(d: Seq<u8>, p: int) -> Step<()> {
    match read_int_byte_size_string(d, p) {
        Ok((_, q)) => skip(q, 4),
        Err(e) => Err(e),
    }
}

pub open spec fn read_marker_if(d: Seq<u8>, p: int, present: bool) -> Step<()> {
    if present { read_marker(d, p) } else { Ok(((), p)) }
}

pub open spec fn read_bytes_if(d: Seq<u8>, p: int, present: bool, count: nat) -> Step<()> {
    if present { read_bytes(d, p, count) } else { Ok(((), p)) }
}

/// The body of one measure header after its flags byte, the time signature
/// carried over from the previous bar as (`num`, `denom`).
pub open spec fn read_measure_header_body(d: Seq<u8>, p: int, flags: u8, num: u8, denom: u8, tempo: i32) -> Step<MeasureHeader> {
    match read_u8_if(d, p, flags & 0x01 != 0, num) {
        Ok((new_num, p1)) => match read_u8_if(d, p1, flags & 0x02 != 0, denom) {
            Ok((new_denom, p2)) => match read_u8_if(d, p2, flags & 0x08 != 0, 0) {
                Ok((repeat_close, p3)) => match read_marker_if(d, p3, flags & 0x20 != 0) {
                    Ok((_, p4)) => match read_bytes_if(d, p4, flags & 0x40 != 0, 2) {
                        Ok((_, p5)) => match read_bytes_if(d, p5, flags & 0x10 != 0, 1) {
                            Ok((_, p6)) => match skip_if(p6, flags & 0x01 != 0 || flags & 0x02 != 0, 4) {
                                Ok((_, p7)) => match skip_if(p7, flags & 0x10 == 0, 1) {
                                    Ok((_, p8)) => match read_u8(d, p8) {
                                        Ok((_, p9)) => Ok((MeasureHeader {
                                            time_sig_num: new_num,
                                            time_sig_denom: new_denom,
                                            tempo,
                                            has_repeat_start: flags & 0x04 != 0,
                                            repeat_close_count: repeat_close,
                                        }, p9)),
                                        Err(e) => Err(e),
                                    },
                                    Err(e) => Err(e),
                                },
                                Err(e) => Err(e),
                            },
                            Err(e) => Err(e),
                        },
                        Err(e) => Err(e),
                    },
                    Err(e) => Err(e),
                },
                Err(e) => Err(e),
            },
            Err(e) => Err(e),
        },
        Err(e) => Err(e),
    }
}

/// One measure header: a separator byte before all but the first, then flags and body.
#[verifier::opaque]
pub open spec fn read_measure_header(d: Seq<u8>, p: int, first: bool, num: u8, denom: u8, tempo: i32) -> Step<MeasureHeader> {
    match skip_if(p, !first, 1) {
        Ok((_, q)) => match read_u8(d, q) {
            Ok((flags, r)) => read_measure_header_body(d, r, flags, num, denom, tempo),
            Err(e) => Err(e),
        },
        Err(e) => Err(e),
    }
}

/// Measure headers `index..count`, appended to `done`.
pub open spec fn read_measure_headers_from(d: Seq<u8>, p: int, index: nat, count: nat, done: Seq<MeasureHeader>, num: u8, denom: u8, tempo: i32) -> Step<Seq<MeasureHeader>>
    decreases count - index,
{
    if index >= count {
        Ok((done, p))
    } else {
        match read_measure_header(d, p, index == 0, num, denom, tempo) {
            Ok((header, q)) => read_measure_headers_from(d, q, index + 1, count, done.push(header),
                header.time_sig_num, header.time_sig_denom, tempo),
            Err(e) => Err(e),
        }
    }
}

/// All measure headers; the time signature starts at 4/4 and carries over.
pub open spec fn read_measure_headers(d: Seq<u8>, p: int, count: nat, tempo: i32) -> Step<Seq<MeasureHeader>> {
    read_measure_headers_from(d, p, 0, count, Seq::empty(), 4, 4, tempo)
}

/// The tuning ints of a track (7 in the file); the first `string_count` are
/// kept, high string first.
pub open spec fn read_tuning_from(d: Seq<u8>, p: int, index: nat, string_count: u8, kept: Seq<u8>) -> Step<Seq<u8>>
    decreases 7 - index,
{
    if index >= 7 {
        Ok((kept, p))
    } else {
        match read_i32(d, p) {
            Ok((midi_note, q)) => read_tuning_from(d, q, index + 1, string_count,
                if index < string_count { kept.push(midi_note as u8) } else { kept }),
            Err(e) => Err(e),
        }
    }
}

/// The MIDI channel of a track: stored 1-based, kept 0-based and not negative.
pub open spec fn midi_channel_of(stored: i32) -> u8 {
    (if stored as int - 1 > 0 { stored as int - 1 } else { 0 }) as u8
}

/// The RSE instrument of a track: 12 bytes, then the effect number (3 bytes
/// in 5.00, 4 in 5.10).
pub open spec fn read_rse_instrument(p: int, v: GpVersion) -> Step<()> {
    match skip(p, 12) {
        Ok((_, q)) => skip(q, if v == GpVersion::Gp500 { 3 } else { 4 }),
        Err(e) => Err(e),
    }
}

/// The RSE data of a track after its colour: display flags and bank (4),
/// humanize (1), 24 unknown bytes, the RSE instrument and, in 5.10, the
/// equalizer (4) and effect name and category strings.
pub open spec fn read_track_rse(d: Seq<u8>, p: int, v: GpVersion) -> Step<()> {
    match skip(p, 4) {
        Ok((_, p1)) => match skip(p1, 1) {
            Ok((_, p2)) => match skip(p2, 12) {
                Ok((_, p3)) => match skip(p3, 12) {
                    Ok((_, p4)) => match read_rse_instrument(p4, v) {
                        Ok((_, p5)) => if v == GpVersion::Gp510 {
                            match skip(p5, 4) {
                                Ok((_, p6)) => read_strings(d, p6, 2),
                                Err(e) => Err(e),
                            }
                        } else {
                            Ok(((), p5))
                        },
                        Err(e) => Err(e),
                    },
                    Err(e) => Err(e),
                },
                Err(e) => Err(e),
            },
            Err(e) => Err(e),
        },
        Err(e) => Err(e),
    }
}

/// One track definition. Tuning is reversed to low-to-high.
pub open spec fn read_track(d: Seq<u8>, p: int, v: GpVersion, track_number: nat) -> Step<TrackView> {
    match skip_if(p, v == GpVersion::Gp500 || track_number == 0, 1) {
        Ok((_, p1)) => match read_u8(d, p1) {
            Ok((_, p2)) => match read_byte_size_string(d, p2, 40) {
                Ok((name, p3)) => match read_i32(d, p3) {
                    Ok((string_count_raw, p4)) => match read_tuning_from(d, p4, 0, string_count_raw as u8, Seq::empty()) {
                        Ok((tuning, p5)) => match read_i32(d, p5) {
                            Ok((port, p6)) => match read_i32(d, p6) {
                                Ok((channel, p7)) => match read_i32(d, p7) {
                                    Ok((_, p8)) => match read_i32(d, p8) {
                                        Ok((_, p9)) => match read_i32(d, p9) {
                                            Ok((capo, p10)) => match skip(p10, 4) {
                                                Ok((_, p11)) => match read_track_rse(d, p11, v) {
                                                    Ok((_, p12)) => Ok((TrackView {
                                                        name,
                                                        tuning: tuning.reverse(),
                                                        capo: capo as u8,
                                                        string_count: string_count_raw as u8,
                                                        midi_channel: midi_channel_of(channel),
                                                        midi_port: port as u8,
                                                    }, p12)),
                                                    Err(e) => Err(e),
                                                },
                                                Err(e) => Err(e),
                                            },
                                            Err(e) => Err(e),
                                        },
                                        Err(e) => Err(e),
                                    },
                                    Err(e) => Err(e),
                                },
                                Err(e) => Err(e),
                            },
                            Err(e) => Err(e),
                        },
                        Err(e) => Err(e),
                    },
                    Err(e) => Err(e),
                },
                Err(e) => Err(e),
            },
            Err(e) => Err(e),
        },
        Err(e) => Err(e),
    }
}

pub open spec fn read_tracks_from(d: Seq<u8>, p: int, v: GpVersion, index: nat, count: nat, done: Seq<TrackView>) -> Step<Seq<TrackView>>
    decreases count - index,
{
    if index >= count {
        Ok((done, p))
    } else {
        match read_track(d, p, v, index) {
            Ok((track, q)) => read_tracks_from(d, q, v, index + 1, count, done.push(track)),
            Err(e) => Err(e),
        }
    }
}

pub open spec fn read_tracks(d: Seq<u8>, p: int, v: GpVersion, count: nat) -> Step<Seq<TrackView>> {
    read_tracks_from(d, p, v, 0, count, Seq::empty())
}

/// A bend: type (1) and value (4) skipped, a point count, 9 bytes per point.
pub open spec fn read_bend(d: Seq<u8>, p: int) -> Step<()> {
    match skip(p, 5) {
        Ok((_, q)) => match read_i32(d, q) {
            Ok((points, r)) => skip_repeated(r, 9, count_of(points)),
            Err(e) => Err(e),
        },
        Err(e) => Err(e),
    }
}

pub open spec fn read_bend_if(d: Seq<u8>, p: int, present: bool) -> Step<()> {
    if present { read_bend(d, p) } else { Ok(((), p)) }
}

/// A chord diagram: 17 bytes, a ByteSizeString(21) name, 4 bytes, the base
/// fret and 7 fret ints, 32 bytes of barres.
pub open spec fn read_chord(d: Seq<u8>, p: int) -> Step<()> {
    match skip(p, 17) {
        Ok((_, p1)) => match read_byte_size_string(d, p1, 21) {
            Ok((_, p2)) => match skip(p2, 4) {
                Ok((_, p3)) => match read_i32(d, p3) {
                    Ok((_, p4)) => match read_ints(d, p4, 7) {
                        Ok((_, p5)) => skip(p5, 32),
                        Err(e) => Err(e),
                    },
                    Err(e) => Err(e),
                },
                Err(e) => Err(e),
            },
            Err(e) => Err(e),
        },
        Err(e) => Err(e),
    }
}

/// `count` ints, discarded.
pub open spec fn read_ints(d: Seq<u8>, p: int, count: nat) -> Step<()>
    decreases count,
{
    if count == 0 {
        Ok(((), p))
    } else {
        match read_i32(d, p) {
            Ok((_, q)) => read_ints(d, q, (count - 1) as nat),
            Err(e) => Err(e),
        }
    }
}

/// Beat effects: two flag bytes; slap effect (1), tremolo bar (bend),
/// stroke (2) and pick stroke (1) follow when flagged, in that order.
pub open spec fn read_beat_effects(d: Seq<u8>, p: int) -> Step<()> {
    match read_u8(d, p) {
        Ok((f1, p1)) => match read_u8(d, p1) {
            Ok((f2, p2)) => match read_bytes_if(d, p2, f1 & 0x20 != 0, 1) {
                Ok((_, p3)) => match read_bend_if(d, p3, f2 & 0x04 != 0) {
                    Ok((_, p4)) => match read_bytes_if(d, p4, f1 & 0x40 != 0, 2) {
                        Ok((_, p5)) => read_bytes_if(d, p5, f2 & 0x02 != 0, 1),
                        Err(e) => Err(e),
                    },
                    Err(e) => Err(e),
                },
                Err(e) => Err(e),
            },
            Err(e) => Err(e),
        },
        Err(e) => Err(e),
    }
}

/// The data of a harmonic: artificial (2) has 3 bytes, tapped (3) one.
pub open spec fn read_harmonic(d: Seq<u8>, p: int) -> Step<()> {
    match read_u8(d, p) {
        Ok((kind, q)) => if kind == 2 { skip(q, 3) } else if kind == 3 { read_bytes(d, q, 1) } else { Ok(((), q)) },
        Err(e) => Err(e),
    }
}

pub open spec fn read_grace_note(d: Seq<u8>, p: int, v: GpVersion) -> Step<()> {
    match skip(p, 4) {
        Ok((_, q)) => read_bytes_if(d, q, v == GpVersion::Gp510, 1),
        Err(e) => Err(e),
    }
}

/// Note effects: two flag bytes; bend, grace note, tremolo picking, slide,
/// harmonic and trill follow when flagged, in that order.
pub open spec fn read_note_effects(d: Seq<u8>, p: int, v: GpVersion) -> Step<()> {
    match read_u8(d, p) {
        Ok((f1, p1)) => match read_u8(d, p1) {
            Ok((f2, p2)) => match read_bend_if(d, p2, f1 & 0x01 != 0) {
                Ok((_, p3)) => match (if f1 & 0x10 != 0 { read_grace_note(d, p3, v) } else { Ok(((), p3)) }) {
                    Ok((_, p4)) => match read_bytes_if(d, p4, f2 & 0x04 != 0, 1) {
                        Ok((_, p5)) => match read_bytes_if(d, p5, f2 & 0x08 != 0, 1) {
                            Ok((_, p6)) => match (if f2 & 0x10 != 0 { read_harmonic(d, p6) } else { Ok(((), p6)) }) {
                                Ok((_, p7)) => read_bytes_if(d, p7, f2 & 0x20 != 0, 2),
                                Err(e) => Err(e),
                            },
                            Err(e) => Err(e),
                        },
                        Err(e) => Err(e),
                    },
                    Err(e) => Err(e),
                },
                Err(e) => Err(e),
            },
            Err(e) => Err(e),
        },
        Err(e) => Err(e),
    }
}

/// A note on string `string_number` (1 = highest). Kept when its fret is
/// not negative.
pub open spec fn read_note(d: Seq<u8>, p: int, v: GpVersion, string_number: u8) -> Step<Option<TabNote>> {
    match read_u8(d, p) {
        Ok((flags, p1)) => match read_bytes_if(d, p1, flags & 0x20 != 0, 1) {
            Ok((_, p2)) => match read_bytes_if(d, p2, flags & 0x10 != 0, 1) {
                Ok((_, p3)) => match (if flags & 0x20 != 0 { read_i8(d, p3) } else { Ok((0i8, p3)) }) {
                    Ok((fret, p4)) => match skip_if(p4, flags & 0x80 != 0, 2) {
                        Ok((_, p5)) => match skip_if(p5, flags & 0x01 != 0, 8) {
                            Ok((_, p6)) => match skip(p6, 1) {
                                Ok((_, p7)) => match (if flags & 0x08 != 0 { read_note_effects(d, p7, v) } else { Ok(((), p7)) }) {
                                    Ok((_, p8)) => Ok((if fret >= 0 {
                                        Some(TabNote { string: string_number, fret: fret as u8 })
                                    } else {
                                        None
                                    }, p8)),
                                    Err(e) => Err(e),
                                },
                                Err(e) => Err(e),
                            },
                            Err(e) => Err(e),
                        },
                        Err(e) => Err(e),
                    },
                    Err(e) => Err(e),
                },
                Err(e) => Err(e),
            },
            Err(e) => Err(e),
        },
        Err(e) => Err(e),
    }
}

/// The notes of a beat: string bits 6 down to 0 of the mask, high string
/// first; `remaining` bits are left to read.
pub open spec fn read_notes_from(d: Seq<u8>, p: int, v: GpVersion, mask: u8, remaining: nat, notes: Seq<TabNote>) -> Step<Seq<TabNote>>
    decreases remaining,
{
    if remaining == 0 {
        Ok((notes, p))
    } else {
        let bit = (remaining - 1) as u8;
        if mask & (1u8 << bit) != 0 {
            match read_note(d, p, v, (7 - bit) as u8) {
                Ok((note, q)) => read_notes_from(d, q, v, mask, (remaining - 1) as nat,
                    match note { Some(n) => notes.push(n), None => notes }),
                Err(e) => Err(e),
            }
        } else {
            read_notes_from(d, p, v, mask, (remaining - 1) as nat, notes)
        }
    }
}

/// The "times" of a tuplet of `enters` notes.
pub open spec fn tuplet_times(enters: i32) -> u8 {
    if enters == 3 || enters == 6 { 2 }
    else if enters == 5 || enters == 7 || enters == 9 || enters == 10 { 4 }
    else if enters == 11 || enters == 12 || enters == 13 { 8 }
    else { 1 }
}

/// One beat as the parser keeps it.
pub struct ParsedBeatView {
    pub notes: Seq<TabNote>,
    pub duration: NoteDuration,
    pub is_rest: bool,
}

/// The tail of a beat record from its chord diagram on.
pub open spec fn read_beat_tail(d: Seq<u8>, p: int, v: GpVersion, flags: u8) -> Step<Seq<TabNote>> {
    match (if flags & 0x02 != 0 { read_chord(d, p) } else { Ok(((), p)) }) {
        Ok((_, p1)) => match (if flags & 0x04 != 0 { match read_int_byte_size_string(d, p1) {
            Ok((_, q)) => Ok(((), q)),
            Err(e) => Err(e),
        } } else { Ok(((), p1)) }) {
            Ok((_, p2)) => match (if flags & 0x08 != 0 { read_beat_effects(d, p2) } else { Ok(((), p2)) }) {
                Ok((_, p3)) => match (if flags & 0x10 != 0 { read_mix_table_change(d, p3, v) } else { Ok(((), p3)) }) {
                    Ok((_, p4)) => match read_u8(d, p4) {
                        Ok((mask, p5)) => match read_notes_from(d, p5, v, mask, 7, Seq::empty()) {
                            Ok((notes, p6)) => match read_i16(d, p6) {
                                Ok((display, p7)) => match read_bytes_if(d, p7, display & 0x0800 != 0, 1) {
                                    Ok((_, p8)) => Ok((notes, p8)),
                                    Err(e) => Err(e),
                                },
                                Err(e) => Err(e),
                            },
                            Err(e) => Err(e),
                        },
                        Err(e) => Err(e),
                    },
                    Err(e) => Err(e),
                },
                Err(e) => Err(e),
            },
            Err(e) => Err(e),
        },
        Err(e) => Err(e),
    }
}

/// One beat: flags, rest status, duration, tuplet, then the tail.
pub open spec fn read_beat(d: Seq<u8>, p: int, v: GpVersion) -> Step<ParsedBeatView> {
    match read_u8(d, p) {
        Ok((flags, p1)) => match (if flags & 0x40 != 0 { read_u8(d, p1) } else { Ok((0u8, p1)) }) {
            Ok((status, p2)) => match read_i8(d, p2) {
                Ok((value, p3)) => match (if flags & 0x20 != 0 { read_i32(d, p3) } else { Ok((1i32, p3)) }) {
                    Ok((enters, p4)) => match read_beat_tail(d, p4, v, flags) {
                        Ok((notes, p5)) => Ok((ParsedBeatView {
                            notes,
                            duration: NoteDuration {
                                value,
                                dotted: flags & 0x01 != 0,
                                tuplet_enters: if flags & 0x20 != 0 { enters as u8 } else { 1 },
                                tuplet_times: if flags & 0x20 != 0 { tuplet_times(enters) } else { 1 },
                            },
                            is_rest: flags & 0x40 != 0 && status == 2,
                        }, p5)),
                        Err(e) => Err(e),
                    },
                    Err(e) => Err(e),
                },
                Err(e) => Err(e),
            },
            Err(e) => Err(e),
        },
        Err(e) => Err(e),
    }
}

/// The transition byte of each mix-table value that is set (not negative).
pub open spec fn read_transitions(d: Seq<u8>, p: int, values: Seq<i8>) -> Step<()>
    decreases values.len(),
{
    if values.len() == 0 {
        Ok(((), p))
    } else {
        match read_bytes_if(d, p, values[0] >= 0, 1) {
            Ok((_, q)) => read_transitions(d, q, values.drop_first()),
            Err(e) => Err(e),
        }
    }
}

/// Six signed bytes: volume, balance, chorus, reverb, phaser, tremolo.
pub open spec fn read_mix_values(d: Seq<u8>, p: int, count: nat, values: Seq<i8>) -> Step<Seq<i8>>
    decreases count,
{
    if count == 0 {
        Ok((values, p))
    } else {
        match read_i8(d, p) {
            Ok((value, q)) => read_mix_values(d, q, (count - 1) as nat, values.push(value)),
            Err(e) => Err(e),
        }
    }
}

/// A mix-table change.
pub open spec fn read_mix_table_change(d: Seq<u8>, p: int, v: GpVersion) -> Step<()> {
    match read_u8(d, p) {
        Ok((_, p1)) => match skip(p1, 16) {
            Ok((_, p2)) => match read_mix_values(d, p2, 6, Seq::empty()) {
                Ok((values, p3)) => match read_int_byte_size_string(d, p3) {
                    Ok((_, p4)) => match read_i32(d, p4) {
                        Ok((tempo, p5)) => match read_transitions(d, p5, values) {
                            Ok((_, p6)) => match read_bytes_if(d, p6, tempo >= 0, if v == GpVersion::Gp510 { 2 } else { 1 }) {
                                Ok((_, p7)) => match read_bytes(d, p7, 1) {
                                    Ok((_, p8)) => match skip(p8, 1) {
                                        Ok((_, p9)) => if v == GpVersion::Gp510 { read_strings(d, p9, 2) } else { Ok(((), p9)) },
                                        Err(e) => Err(e),
                                    },
                                    Err(e) => Err(e),
                                },
                                Err(e) => Err(e),
                            },
                            Err(e) => Err(e),
                        },
                        Err(e) => Err(e),
                    },
                    Err(e) => Err(e),
                },
                Err(e) => Err(e),
            },
            Err(e) => Err(e),
        },
        Err(e) => Err(e),
    }
}

/// `count` beats; only those of voice 0 are kept.
pub open spec fn read_voice_beats(d: Seq<u8>, p: int, v: GpVersion, count: nat, keep: bool, kept: Seq<ParsedBeatView>) -> Step<Seq<ParsedBeatView>>
    decreases count,
{
    if count == 0 {
        Ok((kept, p))
    } else {
        match read_beat(d, p, v) {
            Ok((beat, q)) => read_voice_beats(d, q, v, (count - 1) as nat, keep, if keep { kept.push(beat) } else { kept }),
            Err(e) => Err(e),
        }
    }
}

/// One voice: a beat count, then the beats.
pub open spec fn read_voice(d: Seq<u8>, p: int, v: GpVersion, keep: bool, kept: Seq<ParsedBeatView>) -> Step<Seq<ParsedBeatView>> {
    match read_i32(d, p) {
        Ok((count, q)) => read_voice_beats(d, q, v, count_of(count), keep, kept),
        Err(e) => Err(e),
    }
}

/// One track of one bar: two voices, then a separator byte.
pub open spec fn read_track_bar(d: Seq<u8>, p: int, v: GpVersion) -> Step<Seq<ParsedBeatView>> {
    match read_voice(d, p, v, true, Seq::empty()) {
        Ok((kept, q)) => match read_voice(d, q, v, false, kept) {
            Ok((kept2, r)) => match skip(r, 1) {
                Ok((_, s)) => Ok((kept2, s)),
                Err(e) => Err(e),
            },
            Err(e) => Err(e),
        },
        Err(e) => Err(e),
    }
}

pub open spec fn read_bar_tracks(d: Seq<u8>, p: int, v: GpVersion, index: nat, count: nat, done: Seq<Seq<ParsedBeatView>>) -> Step<Seq<Seq<ParsedBeatView>>>
    decreases count - index,
{
    if index >= count {
        Ok((done, p))
    } else {
        match read_track_bar(d, p, v) {
            Ok((beats, q)) => read_bar_tracks(d, q, v, index + 1, count, done.push(beats)),
            Err(e) => Err(e),
        }
    }
}

/// The beat data: for each bar, for each track, the beats of voice 0.
pub open spec fn read_all_beats_from(d: Seq<u8>, p: int, v: GpVersion, index: nat, bars: nat, tracks: nat, done: Seq<Seq<Seq<ParsedBeatView>>>) -> Step<Seq<Seq<Seq<ParsedBeatView>>>>
    decreases bars - index,
{
    if index >= bars {
        Ok((done, p))
    } else {
        match read_bar_tracks(d, p, v, 0, tracks, Seq::empty()) {
            Ok((bar, q)) => read_all_beats_from(d, q, v, index + 1, bars, tracks, done.push(bar)),
            Err(e) => Err(e),
        }
    }
}

/// The file's sections up to the beat data.
pub struct Gp5Header {
    pub version: GpVersion,
    pub tempo: i32,
    pub bar_count: nat,
    pub track_count: nat,
}

/// Version, song attributes, tempo, key and octave, MIDI channels,
/// directions and master reverb, then the bar and track counts.
pub open spec fn read_header(d: Seq<u8>) -> Step<Gp5Header> {
    match read_version(d, 0) {
        Ok((v, p1)) => match read_song_attributes(d, p1, v) {
            Ok((_, p2)) => match read_i32(d, p2) {
                Ok((tempo, p3)) => match skip_if(p3, v == GpVersion::Gp510, 1) {
                    Ok((_, p4)) => match skip(p4, 1) {
                        Ok((_, p5)) => match skip(p5, 4) {
                            Ok((_, p6)) => match skip_repeated(p6, 12, 64) {
                                Ok((_, p7)) => match skip(p7, 38) {
                                    Ok((_, p8)) => match read_i32(d, p8) {
                                        Ok((_, p9)) => match read_i32(d, p9) {
                                            Ok((bars, p10)) => match read_i32(d, p10) {
                                                Ok((tracks, p11)) => Ok((Gp5Header {
                                                    version: v,
                                                    tempo,
                                                    bar_count: count_of(bars),
                                                    track_count: count_of(tracks),
                                                }, p11)),
                                                Err(e) => Err(e),
                                            },
                                            Err(e) => Err(e),
                                        },
                                        Err(e) => Err(e),
                                    },
                                    Err(e) => Err(e),
                                },
                                Err(e) => Err(e),
                            },
                            Err(e) => Err(e),
                        },
                        Err(e) => Err(e),
                    },
                    Err(e) => Err(e),
                },
                Err(e) => Err(e),
            },
            Err(e) => Err(e),
        },
        Err(e) => Err(e),
    }
}

/// Everything a GP5 file holds that the player uses.
pub struct Gp5Song {
    pub header: Gp5Header,
    pub measure_headers: Seq<MeasureHeader>,
    pub tracks: Seq<TrackView>,
    pub beats: Seq<Seq<Seq<ParsedBeatView>>>,
}

pub open spec fn no_bars_or_tracks_message() -> Seq<char> {
    "No bars or tracks in file"@
}

pub open spec fn track_out_of_range_message(track: nat, count: nat) -> Seq<char> {
    "Track index "@ + decimal(track) + " out of range ("@ + decimal(count) + ")"@
}

/// The whole file: header, measure headers, tracks, a separator byte and
/// the beat data. A file without bars or tracks is refused; so is a track
/// choice past the last track.
pub open spec fn read_song(d: Seq<u8>, track_choice: Option<nat>) -> Result<Gp5Song, Gp5Failure> {
    match read_header(d) {
        Ok((header, p1)) => {
            if header.bar_count == 0 || header.track_count == 0 {
                Err(Gp5Failure::InvalidFormat(no_bars_or_tracks_message()))
            } else if track_choice matches Some(t) && t >= header.track_count {
                Err(Gp5Failure::InvalidFormat(track_out_of_range_message(track_choice.unwrap(), header.track_count)))
            } else {
                match read_measure_headers(d, p1, header.bar_count, header.tempo) {
                    Ok((measures, p2)) => match read_tracks(d, p2, header.version, header.track_count) {
                        Ok((tracks, p3)) => match skip(p3, 1) {
                            Ok((_, p4)) => match read_all_beats_from(d, p4, header.version, 0, header.bar_count, header.track_count, Seq::empty()) {
                                Ok((beats, _)) => Ok(Gp5Song { header, measure_headers: measures, tracks, beats }),
                                Err(e) => Err(e),
                            },
                            Err(e) => Err(e),
                        },
                        Err(e) => Err(e),
                    },
                    Err(e) => Err(e),
                }
            }
        },
        Err(e) => Err(e),
    }
}

/// The default track: the first whose MIDI channel is not the drum channel (9).
pub open spec fn default_track_from(tracks: Seq<TrackView>, from: int) -> nat
    decreases tracks.len() - from,
{
    if from < 0 || from >= tracks.len() {
        0
    } else if tracks[from].midi_channel != 9 {
        from as nat
    } else {
        default_track_from(tracks, from + 1)
    }
}

pub open spec fn default_track(tracks: Seq<TrackView>) -> nat {
    default_track_from(tracks, 0)
}

/// The time signature of one measure header: its flags byte (after a
/// separator byte for all but the first header) says whether a numerator
/// (0x01) and a denominator (0x02) follow it; a part that does not follow
/// is the one carried over from the previous bar.
pub proof fn lemma_header_time_signature(d: Seq<u8>, p: int, first: bool, num: u8, denom: u8, tempo: i32)
    ensures
        read_measure_header(d, p, first, num, denom, tempo) matches Ok((h, _)) ==> {
            let at = if first { p } else { p + 1 };
            let flags = d[at];
            let denom_at = if flags & 0x01 != 0 { at + 2 } else { at + 1 };
            &&& 0 <= at < d.len()
            &&& (flags & 0x01 == 0 ==> h.time_sig_num == num)
            &&& (flags & 0x01 != 0 ==> h.time_sig_num == d[at + 1])
            &&& (flags & 0x02 == 0 ==> h.time_sig_denom == denom)
            &&& (flags & 0x02 != 0 ==> h.time_sig_denom == d[denom_at])
        },
{
    reveal(read_measure_header);
}

/// Measure headers are read one after another, each where the one before
/// it ends, the first with 4/4 carried in and every later one with the time
/// signature of the header before it: where reading `count` headers
/// succeeds, there are positions `at[0] == p, ..., at[count]` (the last is
/// where reading ends) such that header `i` is the single header read at
/// `at[i]` with the previous header's numerator and denominator.
pub proof fn lemma_headers_carry_time_signature(d: Seq<u8>, p: int, count: nat, tempo: i32)
    ensures
        read_measure_headers(d, p, count, tempo) matches Ok((headers, end)) ==> {
            &&& headers.len() == count
            &&& exists|at: Seq<int>| {
                &&& at.len() == count + 1
                &&& at[0] == p
                &&& at[count as int] == end
                &&& forall|i: int| 0 <= i < count ==> read_measure_header(d, #[trigger] at[i], i == 0,
                    if i == 0 { 4u8 } else { headers[i - 1].time_sig_num },
                    if i == 0 { 4u8 } else { headers[i - 1].time_sig_denom },
                    tempo) == Ok::<(MeasureHeader, int), Gp5Failure>((headers[i], at[i + 1]))
            }
        },
{
    lemma_headers_chain(d, p, 0, count, Seq::empty(), 4, 4, tempo);
}

#[verifier::spinoff_prover]
#[verifier::rlimit(40)]
proof fn lemma_headers_chain(d: Seq<u8>, p: int, index: nat, count: nat, done: Seq<MeasureHeader>, num: u8, denom: u8, tempo: i32)
    requires
        index <= count,
        index == 0 ==> num == 4 && denom == 4,
        index > 0 ==> done.len() > 0 && num == done.last().time_sig_num && denom == done.last().time_sig_denom,
    ensures
        read_measure_headers_from(d, p, index, count, done, num, denom, tempo) matches Ok((headers, end)) ==> {
            let base = done.len() as int;
            &&& headers.len() == base + count - index
            &&& headers.take(base) == done
            &&& exists|at: Seq<int>| {
                &&& at.len() == count - index + 1
                &&& at[0] == p
                &&& at[count - index] == end
                &&& forall|i: int| 0 <= i < count - index ==> read_measure_header(d, #[trigger] at[i], index + i == 0,
                    if index + i == 0 { 4u8 } else if i == 0 { num } else { headers[base + i - 1].time_sig_num },
                    if index + i == 0 { 4u8 } else if i == 0 { denom } else { headers[base + i - 1].time_sig_denom },
                    tempo) == Ok::<(MeasureHeader, int), Gp5Failure>((headers[base + i], at[i + 1]))
            }
        },
    decreases count - index,
{
    let base = done.len() as int;
    if index >= count {
        if let Ok((headers, end)) = read_measure_headers_from(d, p, index, count, done, num, denom, tempo) {
            assert(headers.take(base) =~= done);
            let at = seq![p];
            assert(at[0] == p);
        }
    } else {
        if let Ok((h, q)) = read_measure_header(d, p, index == 0, num, denom, tempo) {
            let next = done.push(h);
            lemma_headers_chain(d, q, index + 1, count, next, h.time_sig_num, h.time_sig_denom, tempo);
            if let Ok((headers, end)) = read_measure_headers_from(d, p, index, count, done, num, denom, tempo) {
                assert(read_measure_headers_from(d, p, index, count, done, num, denom, tempo)
                    == read_measure_headers_from(d, q, index + 1, count, next, h.time_sig_num, h.time_sig_denom, tempo));
                let rest = choose|at: Seq<int>| {
                    &&& at.len() == count - (index + 1) + 1
                    &&& at[0] == q
                    &&& at[count - (index + 1)] == end
                    &&& forall|i: int| 0 <= i < count - (index + 1) ==> read_measure_header(d, #[trigger] at[i], index + 1 + i == 0,
                        if index + 1 + i == 0 { 4u8 } else if i == 0 { h.time_sig_num } else { headers[base + 1 + i - 1].time_sig_num },
                        if index + 1 + i == 0 { 4u8 } else if i == 0 { h.time_sig_denom } else { headers[base + 1 + i - 1].time_sig_denom },
                        tempo) == Ok::<(MeasureHeader, int), Gp5Failure>((headers[base + 1 + i], at[i + 1]))
                };
                let at = seq![p] + rest;
                assert(headers.take(base + 1) == next);
                assert(headers[base] == next[base]);
                assert(headers.take(base) =~= done) by {
                    assert(headers.take(base) =~= headers.take(base + 1).take(base));
                    assert(next.take(base) =~= done);
                }
                assert forall|i: int| 0 <= i < count - index implies read_measure_header(d, #[trigger] at[i], index + i == 0,
                    if index + i == 0 { 4u8 } else if i == 0 { num } else { headers[base + i - 1].time_sig_num },
                    if index + i == 0 { 4u8 } else if i == 0 { denom } else { headers[base + i - 1].time_sig_denom },
                    tempo) == Ok::<(MeasureHeader, int), Gp5Failure>((headers[base + i], at[i + 1])) by {
                    if i == 0 {
                        assert(at[0] == p);
                        assert(at[1] == rest[0]);
                    } else {
                        assert(at[i] == rest[i - 1]);
                        assert(at[i + 1] == rest[i]);
                        if i == 1 {
                            assert(headers[base] == h);
                        }
                    }
                }
                assert(at[count - index] == rest[count - index - 1]);
            }
        }
    }
}

} // verus!
