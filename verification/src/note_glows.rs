//! The glowing notes of the tab player's fretboard: each struck note glows
//! from the moment it was struck and fades within a second and a half; a
//! note struck again starts over. Times are milliseconds on one monotonic
//! clock that the application reads.
use vstd::prelude::*;

verus! {

/// How long a struck note glows, in milliseconds.
pub const FADE_DURATION_MS: u64 = 1500;

#[derive(Debug, Clone, Copy, PartialEq, Eq, Structural)]
pub struct NoteGlow {
    pub string: u8,
    pub fret: u8,
    pub start_ms: u64,
}

pub struct GlowSet {
    pub glows: Vec<NoteGlow>,
}

/// How long ago a glow started (no time for one from the future).
pub open spec fn age(glow: NoteGlow, now_ms: u64) -> int {
    if now_ms >= glow.start_ms { now_ms - glow.start_ms } else { 0 }
}

pub open spec fn glowing(glow: NoteGlow, now_ms: u64) -> bool {
    age(glow, now_ms) < FADE_DURATION_MS
}

/// The glows still glowing at `now_ms`, in order.
pub open spec fn still_glowing(glows: Seq<NoteGlow>, now_ms: u64) -> Seq<NoteGlow>
    decreases glows.len(),
{
    if glows.len() == 0 {
        Seq::empty()
    } else {
        let rest = still_glowing(glows.drop_last(), now_ms);
        if glowing(glows.last(), now_ms) { rest.push(glows.last()) } else { rest }
    }
}

/// The glows not on the given string and fret, in order.
pub open spec fn without_note(glows: Seq<NoteGlow>, string: u8, fret: u8) -> Seq<NoteGlow>
    decreases glows.len(),
{
    if glows.len() == 0 {
        Seq::empty()
    } else {
        let rest = without_note(glows.drop_last(), string, fret);
        if glows.last().string == string && glows.last().fret == fret { rest } else { rest.push(glows.last()) }
    }
}

/// Striking the notes one after the other: each ends its old glow and
/// starts a new one at the end.
pub open spec fn struck(glows: Seq<NoteGlow>, notes: Seq<(u8, u8)>, now_ms: u64) -> Seq<NoteGlow>
    decreases notes.len(),
{
    if notes.len() == 0 {
        glows
    } else {
        let before = struck(glows, notes.drop_last(), now_ms);
        let (string, fret) = notes.last();
        without_note(before, string, fret).push(NoteGlow { string, fret, start_ms: now_ms })
    }
}

/// The lowest fret among the notes.
pub open spec fn lowest_fret(notes: Seq<(u8, u8)>) -> u8
    decreases notes.len(),
{
    if notes.len() == 0 {
        0
    } else if notes.len() == 1 {
        notes[0].1
    } else {
        let rest = lowest_fret(notes.drop_last());
        if notes.last().1 < rest { notes.last().1 } else { rest }
    }
}

fn is_glowing(glow: &NoteGlow, now_ms: u64) -> (lit: bool)
    ensures
        lit == glowing(*glow, now_ms),
{
    let age: u64 = if now_ms >= glow.start_ms { now_ms - glow.start_ms } else { 0 };
    age < FADE_DURATION_MS
}

fn remove_note(glows: &Vec<NoteGlow>, string: u8, fret: u8) -> (kept: Vec<NoteGlow>)
    ensures
        kept@ == without_note(glows@, string, fret),
{
    let mut kept: Vec<NoteGlow> = Vec::new();
    let mut i: usize = 0;
    while i < glows.len()
        invariant
            i <= glows@.len(),
            kept@ == without_note(glows@.take(i as int), string, fret),
        decreases glows@.len() - i,
    {
        assert(glows@.take(i + 1).drop_last() =~= glows@.take(i as int));
        let glow = glows[i];
        if !(glow.string == string && glow.fret == fret) {
            kept.push(glow);
        }
        i += 1;
    }
    assert(glows@.take(i as int) =~= glows@);
    kept
}

impl GlowSet {
    pub fn new() -> (set: GlowSet)
        ensures
            set.glows@.len() == 0,
    {
        GlowSet { glows: Vec::new() }
    }

    /// Drops the glows that have faded.
    pub fn prune(&mut self, now_ms: u64)
        ensures
            final(self).glows@ == still_glowing(old(self).glows@, now_ms),
    {
        let mut kept: Vec<NoteGlow> = Vec::new();
        let mut i: usize = 0;
        while i < self.glows.len()
            invariant
                i <= self.glows@.len(),
                self.glows@ == old(self).glows@,
                kept@ == still_glowing(self.glows@.take(i as int), now_ms),
            decreases self.glows@.len() - i,
        {
            assert(self.glows@.take(i + 1).drop_last() =~= self.glows@.take(i as int));
            let glow = self.glows[i];
            if is_glowing(&glow, now_ms) {
                kept.push(glow);
            }
            i += 1;
        }
        assert(self.glows@.take(i as int) =~= self.glows@);
        self.glows = kept;
    }

    /// Strikes the notes, (string, fret) pairs, at `now_ms`.
    pub fn strike(&mut self, notes: &Vec<(u8, u8)>, now_ms: u64)
        ensures
            final(self).glows@ == struck(old(self).glows@, notes@, now_ms),
    {
        let mut i: usize = 0;
        while i < notes.len()
            invariant
                i <= notes@.len(),
                self.glows@ == struck(old(self).glows@, notes@.take(i as int), now_ms),
            decreases notes@.len() - i,
        {
            assert(notes@.take(i + 1).drop_last() =~= notes@.take(i as int));
            let (string, fret) = notes[i];
            let mut kept = remove_note(&self.glows, string, fret);
            kept.push(NoteGlow { string, fret, start_ms: now_ms });
            self.glows = kept;
            i += 1;
        }
        assert(notes@.take(i as int) =~= notes@);
    }

    /// The notes of a beat: the faded glows go, then the notes are struck.
    pub fn set_active_notes(&mut self, notes: &Vec<(u8, u8)>, now_ms: u64)
        ensures
            final(self).glows@ == struck(still_glowing(old(self).glows@, now_ms), notes@, now_ms),
    {
        self.prune(now_ms);
        self.strike(notes, now_ms);
    }

    pub fn clear_notes(&mut self)
        ensures
            final(self).glows@.len() == 0,
    {
        self.glows = Vec::new();
    }

    /// Whether any note still glows.
    pub fn has_active_animations(&self, now_ms: u64) -> (active: bool)
        ensures
            active == (still_glowing(self.glows@, now_ms).len() > 0),
    {
        let mut i: usize = 0;
        while i < self.glows.len()
            invariant
                i <= self.glows@.len(),
                still_glowing(self.glows@.take(i as int), now_ms).len() == 0,
            decreases self.glows@.len() - i,
        {
            assert(self.glows@.take(i + 1).drop_last() =~= self.glows@.take(i as int));
            if is_glowing(&self.glows[i], now_ms) {
                proof {
                    lemma_still_glowing_prefix(self.glows@, now_ms, i + 1);
                }
                return true;
            }
            i += 1;
        }
        assert(self.glows@.take(i as int) =~= self.glows@);
        false
    }
}

proof fn lemma_still_glowing_prefix(glows: Seq<NoteGlow>, now_ms: u64, n: int)
    requires
        0 < n <= glows.len(),
        glowing(glows[n - 1], now_ms),
    ensures
        still_glowing(glows, now_ms).len() > 0,
    decreases glows.len() - n,
{
    if n == glows.len() {
        assert(glows.last() == glows[n - 1]);
    } else {
        lemma_still_glowing_prefix(glows.drop_last(), now_ms, n);
        lemma_still_glowing_grows(glows, now_ms);
    }
}

proof fn lemma_still_glowing_grows(glows: Seq<NoteGlow>, now_ms: u64)
    requires
        glows.len() > 0,
    ensures
        still_glowing(glows, now_ms).len() >= still_glowing(glows.drop_last(), now_ms).len(),
{
}

/// The fret the fretboard scrolls to show: the lowest of the beat's notes,
/// when there are notes and it is not the open string.
pub fn scroll_fret(notes: &Vec<(u8, u8)>) -> (fret: Option<u8>)
    ensures
        notes@.len() == 0 ==> fret is None,
        notes@.len() > 0 ==> fret == if lowest_fret(notes@) == 0 { None } else { Some(lowest_fret(notes@)) },
{
    if notes.len() == 0 {
        return None;
    }
    let mut lowest: u8 = notes[0].1;
    let mut i: usize = 1;
    while i < notes.len()
        invariant
            1 <= i <= notes@.len(),
            lowest == lowest_fret(notes@.take(i as int)),
        decreases notes@.len() - i,
    {
        assert(notes@.take(i + 1).drop_last() =~= notes@.take(i as int));
        if notes[i].1 < lowest {
            lowest = notes[i].1;
        }
        i += 1;
    }
    assert(notes@.take(i as int) =~= notes@);
    if lowest == 0 { None } else { Some(lowest) }
}

/// A struck note glows: right after striking, the last struck note glows
/// and it is the only glow on its string and fret.
pub proof fn lemma_struck_note_glows(glows: Seq<NoteGlow>, notes: Seq<(u8, u8)>, now_ms: u64)
    requires
        notes.len() > 0,
    ensures
        ({
            let after = struck(glows, notes, now_ms);
            let (string, fret) = notes.last();
            &&& after.len() > 0
            &&& after.last() == (NoteGlow { string, fret, start_ms: now_ms })
            &&& glowing(after.last(), now_ms)
            &&& forall|i: int| 0 <= i < after.len() - 1 ==> !(#[trigger] after[i].string == string && after[i].fret == fret)
        }),
{
    let before = struck(glows, notes.drop_last(), now_ms);
    let (string, fret) = notes.last();
    lemma_without_note_excludes(before, string, fret);
}

proof fn lemma_without_note_excludes(glows: Seq<NoteGlow>, string: u8, fret: u8)
    ensures
        forall|i: int| 0 <= i < without_note(glows, string, fret).len()
            ==> !(#[trigger] without_note(glows, string, fret)[i].string == string && without_note(glows, string, fret)[i].fret == fret),
    decreases glows.len(),
{
    if glows.len() > 0 {
        let rest = without_note(glows.drop_last(), string, fret);
        lemma_without_note_excludes(glows.drop_last(), string, fret);
        let all = without_note(glows, string, fret);
        assert forall|i: int| 0 <= i < all.len() implies !(#[trigger] all[i].string == string && all[i].fret == fret) by {
            if i < rest.len() {
                assert(all[i] == rest[i]);
            }
        }
    }
}

} // verus!
