//! Guitar Pro 5 (.gp5, 5.00 and 5.10) parser: reads the bytes of a file into
//! the bars, tracks and beats the tab player needs, following the layout in
//! `gp5_format`. Effects, chords and mix-table data are read past but not
//! kept.
use vstd::prelude::*;
use crate::gp5_format as layout;
use crate::gp5_format::{GpVersion, Gp5Failure, Step, MeasureHeader, ParsedBeatView, Gp5Song, Gp5Header, utf8_lossy_chars, max_position};
use crate::tab_models::{TabNote, NoteDuration, TrackInfo, TrackView, ScoreBeat, ScoreBar, ScoreLayout, layout_consistent};
use crate::text::{contains_str, push_decimal, push_text};

verus! {

/// Why a read from the byte stream failed.
#[derive(Debug, Clone, Copy, PartialEq, Eq, Structural)]
pub enum ReadError {
    UnexpectedEof,
    InvalidSeek,
}

#[derive(Debug)]
pub enum Gp5Error {
    Io(ReadError),
    InvalidFormat(String),
    UnsupportedVersion(String),
}

/// What a failed read says, as the standard library words it.
pub open spec fn read_error_text(error: ReadError) -> Seq<char> {
    match error {
        ReadError::UnexpectedEof => "failed to fill whole buffer"@,
        ReadError::InvalidSeek => "invalid seek to a negative or overflowing position"@,
    }
}

/// What a parse error says.
pub open spec fn gp5_error_text(error: Gp5Error) -> Seq<char> {
    match error {
        Gp5Error::Io(e) => "IO error: "@ + read_error_text(e),
        Gp5Error::InvalidFormat(message) => "Invalid GP5: "@ + message@,
        Gp5Error::UnsupportedVersion(version) => "Unsupported version: "@ + version@,
    }
}

impl ReadError {
    pub fn message(&self) -> (text: String)
        ensures
            text@ == read_error_text(*self),
    {
        let mut text = String::new();
        match self {
            ReadError::UnexpectedEof => push_text(&mut text, "failed to fill whole buffer"),
            ReadError::InvalidSeek => push_text(&mut text, "invalid seek to a negative or overflowing position"),
        }
        text
    }
}

impl Gp5Error {
    /// The error as the application shows it.
    pub fn message(&self) -> (text: String)
        ensures
            text@ == gp5_error_text(*self),
    {
        let mut text = String::new();
        match self {
            Gp5Error::Io(e) => {
                push_text(&mut text, "IO error: ");
                let detail = e.message();
                push_text(&mut text, detail.as_str());
            },
            Gp5Error::InvalidFormat(message) => {
                push_text(&mut text, "Invalid GP5: ");
                push_text(&mut text, message.as_str());
            },
            Gp5Error::UnsupportedVersion(version) => {
                push_text(&mut text, "Unsupported version: ");
                push_text(&mut text, version.as_str());
            },
        }
        text
    }
}

pub open spec fn failure_of(error: Gp5Error) -> Gp5Failure {
    match error {
        Gp5Error::Io(ReadError::UnexpectedEof) => Gp5Failure::UnexpectedEnd,
        Gp5Error::Io(ReadError::InvalidSeek) => Gp5Failure::InvalidSeek,
        Gp5Error::InvalidFormat(message) => Gp5Failure::InvalidFormat(message@),
        Gp5Error::UnsupportedVersion(version) => Gp5Failure::UnsupportedVersion(version@),
    }
}

fn eof<T>() -> (r: Result<T, Gp5Error>)
    ensures
        r matches Err(e) && failure_of(e) == Gp5Failure::UnexpectedEnd,
{
    Err(Gp5Error::Io(ReadError::UnexpectedEof))
}

/// Whether a result matches what the layout says a read gives: the same
/// value (by view) and position, or the same failure.
pub open spec fn reads<T: View>(r: Result<T, Gp5Error>, expected: Step<T::V>, after: int) -> bool {
    match expected {
        Ok((value, p)) => r is Ok && r->Ok_0@ == value && after == p,
        Err(f) => r is Err && failure_of(r->Err_0) == f,
    }
}

/// `String::from_utf8_lossy` from std.
#[verifier::external_body]
fn utf8_lossy(bytes: &Vec<u8>) -> (text: String)
    ensures
        text@ == utf8_lossy_chars(bytes@),
{
    String::from_utf8_lossy(bytes).into_owned()
}

/// A binary reader over the bytes of a file, tracking the sub-version.
pub struct Reader {
    data: Vec<u8>,
    pos: u64,
    version: GpVersion,
}

impl Reader {
    pub closed spec fn bytes(&self) -> Seq<u8> {
        self.data@
    }

    pub closed spec fn position(&self) -> int {
        self.pos as int
    }

    pub closed spec fn gp_version(&self) -> GpVersion {
        self.version
    }

    /// The reader's position is one a seek can reach.
    pub closed spec fn wf(&self) -> bool {
        self.pos <= max_position() && self.data@.len() <= max_position()
    }

    /// `after` reads the same bytes with the same version and is well formed.
    pub open spec fn continues(after: Reader, before: Reader) -> bool {
        &&& after.bytes() == before.bytes()
        &&& after.gp_version() == before.gp_version()
        &&& after.wf()
    }

    pub fn new(data: Vec<u8>) -> (reader: Reader)
        requires
            data@.len() <= max_position(),
        ensures
            reader.bytes() == data@,
            reader.position() == 0,
            reader.gp_version() == GpVersion::Gp510,
            reader.wf(),
    {
        Reader { data, pos: 0, version: GpVersion::Gp510 }
    }

    pub fn set_version(&mut self, version: GpVersion)
        requires
            old(self).wf(),
        ensures
            final(self).bytes() == old(self).bytes(),
            final(self).position() == old(self).position(),
            final(self).gp_version() == version,
            final(self).wf(),
    {
        self.version = version;
    }

    pub fn version(&self) -> (version: GpVersion)
        ensures
            version == self.gp_version(),
    {
        self.version
    }

    pub fn read_byte(&mut self) -> (r: Result<u8, Gp5Error>)
        requires
            old(self).wf(),
        ensures
            Self::continues(*final(self), *old(self)),
            reads(r, layout::read_u8(old(self).bytes(), old(self).position()), final(self).position()),
    {
        if self.pos < self.data.len() as u64 {
            let b = self.data[self.pos as usize];
            self.pos = self.pos + 1;
            Ok(b)
        } else {
            eof()
        }
    }

    pub fn read_signed_byte(&mut self) -> (r: Result<i8, Gp5Error>)
        requires
            old(self).wf(),
        ensures
            Self::continues(*final(self), *old(self)),
            reads(r, layout::read_i8(old(self).bytes(), old(self).position()), final(self).position()),
    {
        let b = self.read_byte()?;
        if b < 128 {
            Ok(b as i8)
        } else {
            Ok((b as i16 - 256) as i8)
        }
    }

    pub fn read_bool(&mut self) -> (r: Result<bool, Gp5Error>)
        requires
            old(self).wf(),
        ensures
            Self::continues(*final(self), *old(self)),
            match layout::read_u8(old(self).bytes(), old(self).position()) {
                Ok((b, p)) => r == Ok::<bool, Gp5Error>(b != 0) && final(self).position() == p,
                Err(f) => r is Err && failure_of(r->Err_0) == f,
            },
    {
        Ok(self.read_byte()? != 0)
    }

    pub fn read_short(&mut self) -> (r: Result<i16, Gp5Error>)
        requires
            old(self).wf(),
        ensures
            Self::continues(*final(self), *old(self)),
            reads(r, layout::read_i16(old(self).bytes(), old(self).position()), final(self).position()),
    {
        let len = self.data.len() as u64;
        if self.pos < len && 1 < len - self.pos {
            let at = self.pos as usize;
            let value: i32 = self.data[at] as i32 + 256 * self.data[at + 1] as i32;
            self.pos = self.pos + 2;
            if value < 32768 {
                Ok(value as i16)
            } else {
                Ok((value - 65536) as i16)
            }
        } else {
            eof()
        }
    }

    pub fn read_int(&mut self) -> (r: Result<i32, Gp5Error>)
        requires
            old(self).wf(),
        ensures
            Self::continues(*final(self), *old(self)),
            reads(r, layout::read_i32(old(self).bytes(), old(self).position()), final(self).position()),
    {
        let len = self.data.len() as u64;
        if self.pos < len && 3 < len - self.pos {
            let at = self.pos as usize;
            let value: i64 = self.data[at] as i64 + 256 * self.data[at + 1] as i64
                + 65536 * self.data[at + 2] as i64 + 16777216 * self.data[at + 3] as i64;
            self.pos = self.pos + 4;
            if value < 0x8000_0000 {
                Ok(value as i32)
            } else {
                Ok((value - 0x1_0000_0000) as i32)
            }
        } else {
            eof()
        }
    }

    /// Moves the position by `count` bytes; past the end is allowed,
    /// before the start is not.
    pub fn skip(&mut self, count: i64) -> (r: Result<(), Gp5Error>)
        requires
            old(self).wf(),
        ensures
            Self::continues(*final(self), *old(self)),
            reads(r, layout::skip(old(self).position(), count as int), final(self).position()),
    {
        let target: i128 = self.pos as i128 + count as i128;
        if 0 <= target && target <= 0x7fff_ffff_ffff_ffff {
            self.pos = target as u64;
            Ok(())
        } else {
            Err(Gp5Error::Io(ReadError::InvalidSeek))
        }
    }

    /// `count` skips of `width` bytes, taken in one move.
    pub fn skip_many(&mut self, width: u8, count: u64) -> (r: Result<(), Gp5Error>)
        requires
            old(self).wf(),
            width > 0,
        ensures
            Self::continues(*final(self), *old(self)),
            reads(r, layout::skip_repeated(old(self).position(), width as int, count as nat), final(self).position()),
    {
        proof {
            layout::lemma_skip_repeated_closed(self.pos as int, width as int, count as nat);
        }
        assert(width as u128 * count as u128 <= 255 * 0xffff_ffff_ffff_ffffu128) by (nonlinear_arith)
            requires width <= 255, count <= 0xffff_ffff_ffff_ffffu64;
        let target: u128 = self.pos as u128 + width as u128 * count as u128;
        if target <= 0x7fff_ffff_ffff_ffff {
            self.pos = target as u64;
            Ok(())
        } else {
            Err(Gp5Error::Io(ReadError::InvalidSeek))
        }
    }

    /// The bytes `[pos, pos + count)` as text, when all of them are there.
    fn read_text(&mut self, count: u64, text_len: u64) -> (r: Result<String, Gp5Error>)
        requires
            old(self).wf(),
            text_len <= count,
        ensures
            Self::continues(*final(self), *old(self)),
            if old(self).position() + count <= old(self).bytes().len() {
                r is Ok && r->Ok_0@ == utf8_lossy_chars(old(self).bytes().subrange(old(self).position(), old(self).position() + text_len))
                    && final(self).position() == old(self).position() + count
            } else {
                r is Err && failure_of(r->Err_0) == Gp5Failure::UnexpectedEnd
            },
    {
        let data_len = self.data.len();
        let len = data_len as u64;
        if self.pos <= len && count <= len - self.pos {
            let start = self.pos as usize;
            let text_end = start + text_len as usize;
            let mut buffer: Vec<u8> = Vec::new();
            let mut i: usize = start;
            while i < text_end
                invariant
                    data_len == self.data@.len(),
                    start <= i <= text_end,
                    text_end == start + text_len,
                    text_len <= count,
                    start as int + count <= self.data@.len(),
                    buffer@ == self.data@.subrange(start as int, i as int),
                decreases text_end - i,
            {
                buffer.push(self.data[i]);
                i += 1;
                assert(buffer@ =~= self.data@.subrange(start as int, i as int));
            }
            self.pos = self.pos + count;
            Ok(utf8_lossy(&buffer))
        } else {
            eof()
        }
    }

    /// ByteSizeString: a length byte, then `max_size` (or `length`) bytes;
    /// the text is the first `length`.
    pub fn read_byte_size_string(&mut self, max_size: usize) -> (r: Result<String, Gp5Error>)
        requires
            old(self).wf(),
        ensures
            Self::continues(*final(self), *old(self)),
            reads(r, layout::read_byte_size_string(old(self).bytes(), old(self).position(), max_size as int), final(self).position()),
    {
        let length = self.read_byte()?;
        let width: u64 = if max_size as u64 >= length as u64 { max_size as u64 } else { length as u64 };
        self.read_text(width, length as u64)
    }

    /// IntByteSizeString: an int total, a length byte, the text, padding to the total.
    pub fn read_int_byte_size_string(&mut self) -> (r: Result<String, Gp5Error>)
        requires
            old(self).wf(),
        ensures
            Self::continues(*final(self), *old(self)),
            reads(r, layout::read_int_byte_size_string(old(self).bytes(), old(self).position()), final(self).position()),
    {
        let total = self.read_int()?;
        if total == 0 {
            return Ok(String::new());
        }
        let length = self.read_byte()?;
        let text = self.read_text(length as u64, length as u64)?;
        let padding: i64 = if total >= 0 {
            if total as i64 - length as i64 - 1 > 0 { total as i64 - length as i64 - 1 } else { 0 }
        } else {
            total as i64 - length as i64 - 1
        };
        if padding != 0 {
            self.skip(padding)?;
        }
        Ok(text)
    }

    /// IntSizeString: an int length, then the text.
    pub fn read_int_size_string(&mut self) -> (r: Result<String, Gp5Error>)
        requires
            old(self).wf(),
        ensures
            Self::continues(*final(self), *old(self)),
            reads(r, layout::read_int_size_string(old(self).bytes(), old(self).position()), final(self).position()),
    {
        let length = self.read_int()?;
        if length < 0 {
            return eof();
        }
        self.read_text(length as u64, length as u64)
    }
}


/// The reader after a section read: same bytes and version, well formed.
pub open spec fn advanced(after: Reader, before: Reader) -> bool {
    Reader::continues(after, before)
}

/// `count` IntByteSizeStrings, their text discarded.
pub(crate) fn read_strings(reader: &mut Reader, count: u64) -> (r: Result<(), Gp5Error>)
    requires
        old(reader).wf(),
    ensures
        advanced(*final(reader), *old(reader)),
        reads(r, layout::read_strings(old(reader).bytes(), old(reader).position(), count as nat), final(reader).position()),
{
    let ghost bytes = reader.bytes();
    let ghost start = reader.position();
    let ghost version = reader.gp_version();
    let mut i: u64 = 0;
    while i < count
        invariant
            reader.wf(),
            reader.bytes() == bytes,
            reader.gp_version() == version,
            bytes == old(reader).bytes(),
            version == old(reader).gp_version(),
            start == old(reader).position(),
            i <= count,
            layout::read_strings(bytes, start, count as nat)
                == layout::read_strings(bytes, reader.position(), (count - i) as nat),
        decreases count - i,
    {
        reader.read_int_byte_size_string()?;
        i += 1;
    }
    Ok(())
}

/// `count` single bytes, discarded.
pub(crate) fn read_bytes(reader: &mut Reader, count: u64) -> (r: Result<(), Gp5Error>)
    requires
        old(reader).wf(),
    ensures
        advanced(*final(reader), *old(reader)),
        reads(r, layout::read_bytes(old(reader).bytes(), old(reader).position(), count as nat), final(reader).position()),
{
    let ghost bytes = reader.bytes();
    let ghost start = reader.position();
    let ghost version = reader.gp_version();
    let mut i: u64 = 0;
    while i < count
        invariant
            reader.wf(),
            reader.bytes() == bytes,
            reader.gp_version() == version,
            bytes == old(reader).bytes(),
            version == old(reader).gp_version(),
            start == old(reader).position(),
            i <= count,
            layout::read_bytes(bytes, start, count as nat)
                == layout::read_bytes(bytes, reader.position(), (count - i) as nat),
        decreases count - i,
    {
        reader.read_byte()?;
        i += 1;
    }
    Ok(())
}

/// `count` ints, discarded.
pub(crate) fn read_ints(reader: &mut Reader, count: u64) -> (r: Result<(), Gp5Error>)
    requires
        old(reader).wf(),
    ensures
        advanced(*final(reader), *old(reader)),
        reads(r, layout::read_ints(old(reader).bytes(), old(reader).position(), count as nat), final(reader).position()),
{
    let ghost bytes = reader.bytes();
    let ghost start = reader.position();
    let ghost version = reader.gp_version();
    let mut i: u64 = 0;
    while i < count
        invariant
            reader.wf(),
            reader.bytes() == bytes,
            reader.gp_version() == version,
            bytes == old(reader).bytes(),
            version == old(reader).gp_version(),
            start == old(reader).position(),
            i <= count,
            layout::read_ints(bytes, start, count as nat)
                == layout::read_ints(bytes, reader.position(), (count - i) as nat),
        decreases count - i,
    {
        reader.read_int()?;
        i += 1;
    }
    Ok(())
}

/// The value of a count stored as a signed int, as an unsigned machine word.
pub(crate) fn count_from(n: i32) -> (count: u64)
    ensures
        count as nat == layout::count_of(n),
{
    if n >= 0 {
        n as u64
    } else {
        (n as i128 + 0x1_0000_0000_0000_0000i128) as u64
    }
}

/// Read and check the version header.
pub fn read_version(reader: &mut Reader) -> (r: Result<GpVersion, Gp5Error>)
    requires
        old(reader).wf(),
    ensures
        advanced(*final(reader), *old(reader)),
        reads(r, layout::read_version(old(reader).bytes(), old(reader).position()), final(reader).position()),
{
    let version_string = reader.read_byte_size_string(30)?;
    if contains_str(version_string.as_str(), "v5.10") {
        Ok(GpVersion::Gp510)
    } else if contains_str(version_string.as_str(), "v5.00") || contains_str(version_string.as_str(), "v5.0") {
        Ok(GpVersion::Gp500)
    } else {
        Err(Gp5Error::UnsupportedVersion(version_string))
    }
}

/// Skip lyrics: the lyrics track, then five (start bar, IntSizeString) lines.
pub fn read_lyrics(reader: &mut Reader) -> (r: Result<(), Gp5Error>)
    requires
        old(reader).wf(),
    ensures
        advanced(*final(reader), *old(reader)),
        reads(r, layout::read_lyrics(old(reader).bytes(), old(reader).position()), final(reader).position()),
{
    let ghost bytes = reader.bytes();
    reader.read_int()?;
    let ghost after_track = reader.position();
    let mut line: u64 = 0;
    while line < 5
        invariant
            reader.wf(),
            reader.bytes() == bytes,
            bytes == old(reader).bytes(),
            reader.gp_version() == old(reader).gp_version(),
            layout::read_i32(bytes, old(reader).position()) matches Ok((_, q)) && q == after_track,
            line <= 5,
            layout::read_lyric_lines(bytes, after_track, 5)
                == layout::read_lyric_lines(bytes, reader.position(), (5 - line) as nat),
        decreases 5 - line,
    {
        reader.read_int()?;
        reader.read_int_size_string()?;
        line += 1;
    }
    Ok(())
}

/// Skip the RSE instrument of a track: 12 bytes, then the effect number.
pub fn read_rse_instrument(reader: &mut Reader) -> (r: Result<(), Gp5Error>)
    requires
        old(reader).wf(),
    ensures
        advanced(*final(reader), *old(reader)),
        reads(r, layout::read_rse_instrument(old(reader).position(), old(reader).gp_version()), final(reader).position()),
{
    reader.skip(12)?;
    if reader.version() == GpVersion::Gp500 {
        reader.skip(3)?;
    } else {
        reader.skip(4)?;
    }
    Ok(())
}

/// Skip a track's equalizer (5.10 only): 3 bands and a gain.
pub fn read_track_equalizer(reader: &mut Reader) -> (r: Result<(), Gp5Error>)
    requires
        old(reader).wf(),
    ensures
        advanced(*final(reader), *old(reader)),
        reads(r, layout::skip(old(reader).position(), 4), final(reader).position()),
{
    reader.skip(4)
}

/// Skip a track's RSE instrument effect (5.10 only): name and category.
pub fn read_rse_instrument_effect(reader: &mut Reader) -> (r: Result<(), Gp5Error>)
    requires
        old(reader).wf(),
    ensures
        advanced(*final(reader), *old(reader)),
        reads(r, layout::read_strings(old(reader).bytes(), old(reader).position(), 2), final(reader).position()),
{
    read_strings(reader, 2)
}

/// Skip the RSE master effect (5.10 only): volume, padding, 11 EQ bands.
pub fn read_rse_master_effect(reader: &mut Reader) -> (r: Result<(), Gp5Error>)
    requires
        old(reader).wf(),
    ensures
        advanced(*final(reader), *old(reader)),
        reads(r, layout::read_rse_master_effect(old(reader).bytes(), old(reader).position(), old(reader).gp_version()), final(reader).position()),
{
    if reader.version() == GpVersion::Gp510 {
        reader.read_int()?;
        reader.skip(4)?;
        read_bytes(reader, 11)?;
    }
    Ok(())
}

/// Skip the page setup: 30 bytes and 11 header/footer strings; a string
/// that cannot be read is reported as an unexpected end.
pub fn read_page_setup(reader: &mut Reader) -> (r: Result<(), Gp5Error>)
    requires
        old(reader).wf(),
    ensures
        advanced(*final(reader), *old(reader)),
        reads(r, layout::read_page_setup(old(reader).bytes(), old(reader).position()), final(reader).position()),
{
    reader.skip(30)?;
    match read_strings(reader, 11) {
        Ok(()) => Ok(()),
        Err(_) => eof(),
    }
}

/// Skip the song attributes.
pub fn read_song_attributes(reader: &mut Reader) -> (r: Result<(), Gp5Error>)
    requires
        old(reader).wf(),
    ensures
        advanced(*final(reader), *old(reader)),
        reads(r, layout::read_song_attributes(old(reader).bytes(), old(reader).position(), old(reader).gp_version()), final(reader).position()),
{
    read_strings(reader, 9)?;
    let notice_count = reader.read_int()?;
    read_strings(reader, count_from(notice_count))?;
    read_lyrics(reader)?;
    read_rse_master_effect(reader)?;
    read_page_setup(reader)?;
    Ok(())
}


/// Read one measure header (see the module layout): time signature changes,
/// repeats, marker, key change, alternate endings, beaming and triplet feel.
pub fn read_measure_header(reader: &mut Reader, first: bool, num: u8, denom: u8, tempo: i32) -> (r: Result<MeasureHeader, Gp5Error>)
    requires
        old(reader).wf(),
    ensures
        advanced(*final(reader), *old(reader)),
        reads(r, layout::read_measure_header(old(reader).bytes(), old(reader).position(), first, num, denom, tempo), final(reader).position()),
{
    proof {
        reveal(layout::read_measure_header);
    }
    if !first {
        reader.skip(1)?;
    }
    let flags = reader.read_byte()?;
    let mut current_num = num;
    if flags & 0x01 != 0 {
        current_num = reader.read_byte()?;
    }
    let mut current_denom = denom;
    if flags & 0x02 != 0 {
        current_denom = reader.read_byte()?;
    }
    let has_repeat_start = flags & 0x04 != 0;
    let mut repeat_close_count: u8 = 0;
    if flags & 0x08 != 0 {
        repeat_close_count = reader.read_byte()?;
    }
    if flags & 0x20 != 0 {
        reader.read_int_byte_size_string()?;
        reader.skip(4)?;
    }
    if flags & 0x40 != 0 {
        read_bytes(reader, 2)?;
    }
    if flags & 0x10 != 0 {
        read_bytes(reader, 1)?;
    }
    if flags & 0x01 != 0 || flags & 0x02 != 0 {
        reader.skip(4)?;
    }
    if flags & 0x10 == 0 {
        reader.skip(1)?;
    }
    reader.read_byte()?;
    Ok(MeasureHeader {
        time_sig_num: current_num,
        time_sig_denom: current_denom,
        tempo,
        has_repeat_start,
        repeat_close_count,
    })
}

/// Read `count` measure headers; the time signature starts at 4/4 and
/// carries over from bar to bar.
pub fn read_measure_headers(reader: &mut Reader, count: u64, global_tempo: i32) -> (r: Result<Vec<MeasureHeader>, Gp5Error>)
    requires
        old(reader).wf(),
    ensures
        advanced(*final(reader), *old(reader)),
        reads(r, layout::read_measure_headers(old(reader).bytes(), old(reader).position(), count as nat, global_tempo), final(reader).position()),
        r is Ok ==> r->Ok_0@.len() == count,
{
    let ghost bytes = reader.bytes();
    let mut headers: Vec<MeasureHeader> = Vec::new();
    let mut current_num: u8 = 4;
    let mut current_denom: u8 = 4;
    let mut bar_index: u64 = 0;
    while bar_index < count
        invariant
            reader.wf(),
            reader.bytes() == bytes,
            bytes == old(reader).bytes(),
            reader.gp_version() == old(reader).gp_version(),
            bar_index <= count,
            headers@.len() == bar_index,
            layout::read_measure_headers(bytes, old(reader).position(), count as nat, global_tempo)
                == layout::read_measure_headers_from(bytes, reader.position(), bar_index as nat, count as nat,
                    headers@, current_num, current_denom, global_tempo),
        decreases count - bar_index,
    {
        let header = read_measure_header(reader, bar_index == 0, current_num, current_denom, global_tempo)?;
        current_num = header.time_sig_num;
        current_denom = header.time_sig_denom;
        headers.push(header);
        bar_index += 1;
    }
    Ok(headers)
}

/// The first `string_count` of the 7 tuning ints, high string first.
fn read_tuning(reader: &mut Reader, string_count: u8) -> (r: Result<Vec<u8>, Gp5Error>)
    requires
        old(reader).wf(),
    ensures
        advanced(*final(reader), *old(reader)),
        reads(r, layout::read_tuning_from(old(reader).bytes(), old(reader).position(), 0, string_count, Seq::empty()), final(reader).position()),
{
    let ghost bytes = reader.bytes();
    let mut tuning: Vec<u8> = Vec::new();
    let mut string_index: u8 = 0;
    while string_index < 7
        invariant
            reader.wf(),
            reader.bytes() == bytes,
            bytes == old(reader).bytes(),
            reader.gp_version() == old(reader).gp_version(),
            string_index <= 7,
            layout::read_tuning_from(bytes, old(reader).position(), 0, string_count, Seq::empty())
                == layout::read_tuning_from(bytes, reader.position(), string_index as nat, string_count, tuning@),
        decreases 7 - string_index,
    {
        let midi_note = reader.read_int()? as u8;
        if string_index < string_count {
            tuning.push(midi_note);
        }
        string_index += 1;
    }
    Ok(tuning)
}

fn reversed(values: &Vec<u8>) -> (r: Vec<u8>)
    ensures
        r@ == values@.reverse(),
{
    let mut r: Vec<u8> = Vec::new();
    let mut i: usize = values.len();
    while i > 0
        invariant
            i <= values@.len(),
            r@.len() == values@.len() - i,
            forall|k: int| 0 <= k < r@.len() ==> r@[k] == values@[values@.len() - 1 - k],
        decreases i,
    {
        i -= 1;
        r.push(values[i]);
    }
    assert(r@ =~= values@.reverse());
    r
}

/// Read one track definition; the tuning is turned low-to-high.
pub fn read_track(reader: &mut Reader, track_number: u64) -> (r: Result<TrackInfo, Gp5Error>)
    requires
        old(reader).wf(),
    ensures
        advanced(*final(reader), *old(reader)),
        reads(r, layout::read_track(old(reader).bytes(), old(reader).position(), old(reader).gp_version(), track_number as nat), final(reader).position()),
{
    if reader.version() == GpVersion::Gp500 || track_number == 0 {
        reader.skip(1)?;
    }
    let _flags = reader.read_byte()?;
    let name = reader.read_byte_size_string(40)?;
    let string_count_raw = reader.read_int()?;
    let string_count = string_count_raw as u8;
    let tuning_high_first = read_tuning(reader, string_count)?;
    let tuning = reversed(&tuning_high_first);
    let midi_port = reader.read_int()? as u8;
    let channel = reader.read_int()?;
    let shifted: i64 = channel as i64 - 1;
    let midi_channel = (if shifted > 0 { shifted } else { 0 }) as u8;
    let _midi_channel_effects = reader.read_int()?;
    let _fret_count = reader.read_int()?;
    let capo = reader.read_int()? as u8;
    reader.skip(4)?;
    reader.skip(4)?;
    reader.skip(1)?;
    reader.skip(12)?;
    reader.skip(12)?;
    read_rse_instrument(reader)?;
    if reader.version() == GpVersion::Gp510 {
        read_track_equalizer(reader)?;
        read_rse_instrument_effect(reader)?;
    }
    Ok(TrackInfo { name, tuning, capo, string_count, midi_channel, midi_port })
}

pub open spec fn tracks_view(tracks: Seq<TrackInfo>) -> Seq<TrackView> {
    tracks.map_values(|track: TrackInfo| track@)
}

/// Read `count` track definitions.
pub fn read_tracks(reader: &mut Reader, count: u64) -> (r: Result<Vec<TrackInfo>, Gp5Error>)
    requires
        old(reader).wf(),
    ensures
        advanced(*final(reader), *old(reader)),
        match layout::read_tracks(old(reader).bytes(), old(reader).position(), old(reader).gp_version(), count as nat) {
            Ok((tracks, p)) => r is Ok && tracks_view(r->Ok_0@) == tracks && final(reader).position() == p,
            Err(f) => r is Err && failure_of(r->Err_0) == f,
        },
        r is Ok ==> r->Ok_0@.len() == count,
{
    let ghost bytes = reader.bytes();
    let mut tracks: Vec<TrackInfo> = Vec::new();
    assert(tracks_view(tracks@) =~= Seq::empty());
    let mut track_number: u64 = 0;
    while track_number < count
        invariant
            reader.wf(),
            reader.bytes() == bytes,
            bytes == old(reader).bytes(),
            reader.gp_version() == old(reader).gp_version(),
            track_number <= count,
            tracks@.len() == track_number,
            layout::read_tracks(bytes, old(reader).position(), old(reader).gp_version(), count as nat)
                == layout::read_tracks_from(bytes, reader.position(), old(reader).gp_version(), track_number as nat, count as nat, tracks_view(tracks@)),
        decreases count - track_number,
    {
        let track = read_track(reader, track_number)?;
        proof {
            assert(tracks_view(tracks@.push(track)) =~= tracks_view(tracks@).push(track@));
        }
        tracks.push(track);
        track_number += 1;
    }
    Ok(tracks)
}

} // verus!
