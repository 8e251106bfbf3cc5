//! What strumming a chord voicing plays: the order in which the strings are
//! struck, the recorded note each one sounds, and when. Playing the sound
//! files and choosing a loudness are the application's part.
use vstd::prelude::*;
use crate::chord_builder::VoicingNote;
use crate::scale_data::{spec_standard_tuning, standard_tuning};
use crate::text::{decimal, push_text, push_decimal};

verus! {

/// MIDI note of the lowest open string's octave base.
pub const MIDI_BASE: u8 = 36;
/// Lowest note a guitar sample exists for.
pub const MIDI_MIN: u8 = 40;
/// Highest note a guitar sample exists for.
pub const MIDI_MAX: u8 = 84;
/// Time between two strings of a strum, in milliseconds.
pub const STRUM_DELAY_MS: u64 = 28;
/// Largest random delay added to a string, in milliseconds.
pub const STRUM_JITTER_MS: u64 = 4;

/// A note kept within the range the samples cover.
pub open spec fn clamp_midi(note: int) -> int {
    if note < MIDI_MIN {
        MIDI_MIN as int
    } else if note > MIDI_MAX {
        MIDI_MAX as int
    } else {
        note
    }
}

/// The resource holding the sample of a note.
pub open spec fn spec_guitar_uri(midi_note: u8) -> Seq<char> {
    "resource:///com/adrienplazas/Metronome/audio/guitar/guitar_"@
        + decimal(clamp_midi(midi_note as int) as nat) + ".ogg"@
}

pub fn guitar_uri(midi_note: u8) -> (uri: String)
    ensures
        uri@ == spec_guitar_uri(midi_note),
{
    let clamped: u8 = if midi_note < MIDI_MIN {
        MIDI_MIN
    } else if midi_note > MIDI_MAX {
        MIDI_MAX
    } else {
        midi_note
    };
    let mut uri = String::new();
    push_text(&mut uri, "resource:///com/adrienplazas/Metronome/audio/guitar/guitar_");
    push_decimal(&mut uri, clamped as u64);
    push_text(&mut uri, ".ogg");
    uri
}

/// One xorshift step.
pub open spec fn spec_next_random(x: u32) -> u32 {
    let a = x ^ (x << 13u32);
    let b = a ^ (a >> 17u32);
    b ^ (b << 5u32)
}

/// The state after `n` xorshift steps.
pub open spec fn nth_random(state: u32, n: nat) -> u32
    decreases n,
{
    if n == 0 {
        state
    } else {
        spec_next_random(nth_random(state, (n - 1) as nat))
    }
}

/// Advances the xorshift state and returns the new value.
pub fn rand_u32(state: &mut u32) -> (value: u32)
    ensures
        value == spec_next_random(*old(state)),
        *final(state) == value,
{
    let mut x = *state;
    x = x ^ (x << 13u32);
    x = x ^ (x >> 17u32);
    x = x ^ (x << 5u32);
    *state = x;
    x
}

/// The notes of `notes` on string `string_index`, in their order.
pub open spec fn notes_on_string(notes: Seq<VoicingNote>, string_index: int) -> Seq<VoicingNote>
    decreases notes.len(),
{
    if notes.len() == 0 {
        Seq::empty()
    } else {
        let rest = notes_on_string(notes.drop_last(), string_index);
        if notes.last().string_index == string_index {
            rest.push(notes.last())
        } else {
            rest
        }
    }
}

/// The notes on the strings from index 5 down to `lowest`: the strum goes
/// from the low E string (index 5) up, each string's notes in their order.
pub open spec fn strum_order(notes: Seq<VoicingNote>, lowest: int) -> Seq<VoicingNote>
    decreases 6 - lowest,
{
    if lowest > 5 {
        Seq::empty()
    } else {
        strum_order(notes, lowest + 1) + notes_on_string(notes, lowest)
    }
}

/// The note a voicing note sounds, before clamping to the sample range.
pub open spec fn raw_midi_note(note: VoicingNote) -> int {
    MIDI_BASE + spec_standard_tuning(5 - note.string_index) + (note.fret as u8)
}

/// The voicings a strum can play: strings 0 to 5, notes within a byte.
pub open spec fn playable(voicing: Seq<VoicingNote>) -> bool {
    forall|i: int| 0 <= i < voicing.len() ==> {
        &&& (#[trigger] voicing[i]).string_index <= 5
        &&& raw_midi_note(voicing[i]) <= u8::MAX
    }
}

/// One string of a strum: the note, its delay from the start, and the
/// random draw its loudness is taken from.
pub struct StrumStep {
    pub midi_note: u8,
    pub delay_ms: u64,
    pub velocity_draw: u32,
}

/// The step that the `k`-th struck note becomes, with the random state the
/// strum started from.
pub open spec fn strum_step_matches(step: StrumStep, note: VoicingNote, k: int, state: u32) -> bool {
    &&& step.midi_note == clamp_midi(raw_midi_note(note))
    &&& step.delay_ms == k * STRUM_DELAY_MS + (nth_random(state, (2 * k + 1) as nat) as int) % (STRUM_JITTER_MS + 1)
    &&& step.velocity_draw == nth_random(state, (2 * k + 2) as nat)
}

proof fn lemma_prefix_notes_on_string_len(notes: Seq<VoicingNote>, j: int, string_index: int)
    requires
        0 <= j <= notes.len(),
    ensures
        notes_on_string(notes.take(j), string_index).len() <= notes_on_string(notes, string_index).len(),
    decreases notes.len() - j,
{
    if j == notes.len() {
        assert(notes.take(j) =~= notes);
    } else {
        assert(notes.take(j + 1).drop_last() =~= notes.take(j));
        lemma_prefix_notes_on_string_len(notes, j + 1, string_index);
    }
}

proof fn lemma_strum_order_drop_last(notes: Seq<VoicingNote>, lowest: int)
    requires
        notes.len() > 0,
        0 <= lowest,
    ensures
        strum_order(notes, lowest).len() == strum_order(notes.drop_last(), lowest).len()
            + if lowest <= notes.last().string_index <= 5 { 1int } else { 0int },
    decreases 6 - lowest,
{
    if lowest <= 5 {
        lemma_strum_order_drop_last(notes, lowest + 1);
    }
}

proof fn lemma_strum_order_len(notes: Seq<VoicingNote>, lowest: int)
    requires
        0 <= lowest,
    ensures
        strum_order(notes, lowest).len() <= notes.len(),
    decreases notes.len(),
{
    if notes.len() == 0 {
        lemma_strum_order_empty(notes, lowest);
    } else {
        lemma_strum_order_drop_last(notes, lowest);
        lemma_strum_order_len(notes.drop_last(), lowest);
    }
}

proof fn lemma_strum_order_empty(notes: Seq<VoicingNote>, lowest: int)
    requires
        notes.len() == 0,
    ensures
        strum_order(notes, lowest).len() == 0,
    decreases 6 - lowest,
{
    if lowest <= 5 {
        lemma_strum_order_empty(notes, lowest + 1);
    }
}

/// The strum of a voicing: the notes from the low E string up, each with
/// its delay and loudness draw; the random state moves on two draws per
/// note (delay jitter, then loudness).
pub fn strum_plan(voicing: &Vec<VoicingNote>, state: &mut u32) -> (steps: Vec<StrumStep>)
    requires
        playable(voicing@),
        voicing@.len() * STRUM_DELAY_MS + STRUM_JITTER_MS <= u64::MAX,
    ensures
        steps@.len() == strum_order(voicing@, 0).len(),
        forall|k: int| 0 <= k < steps@.len() ==> strum_step_matches(
            #[trigger] steps@[k], strum_order(voicing@, 0)[k], k, *old(state)),
        *final(state) == nth_random(*old(state), (2 * steps@.len()) as nat),
{
    let ghost start = *state;
    let ghost notes = voicing@;
    let ghost mut played: Seq<VoicingNote> = Seq::empty();
    let mut steps: Vec<StrumStep> = Vec::new();
    let mut next: usize = 6;
    while next > 0
        invariant
            next <= 6,
            notes == voicing@,
            playable(notes),
            notes.len() * STRUM_DELAY_MS + STRUM_JITTER_MS <= u64::MAX,
            played == strum_order(notes, next as int),
            steps@.len() == played.len(),
            forall|k: int| 0 <= k < steps@.len() ==> strum_step_matches(#[trigger] steps@[k], played[k], k, start),
            *state == nth_random(start, (2 * steps@.len()) as nat),
        decreases next,
    {
        let string_index = next - 1;
        let mut j: usize = 0;
        while j < voicing.len()
            invariant
                string_index + 1 == next,
                next <= 6,
                j <= voicing@.len(),
                notes == voicing@,
                playable(notes),
                notes.len() * STRUM_DELAY_MS + STRUM_JITTER_MS <= u64::MAX,
                played == strum_order(notes, next as int) + notes_on_string(notes.take(j as int), string_index as int),
                steps@.len() == played.len(),
                forall|k: int| 0 <= k < steps@.len() ==> strum_step_matches(#[trigger] steps@[k], played[k], k, start),
                *state == nth_random(start, (2 * steps@.len()) as nat),
            decreases voicing@.len() - j,
        {
            assert(notes.take(j + 1).drop_last() =~= notes.take(j as int));
            let note = &voicing[j];
            let ghost old_steps = steps@;
            let ghost old_played = played;
            if note.string_index == string_index {
                proof {
                    lemma_strum_order_len(notes, string_index as int);
                    lemma_prefix_notes_on_string_len(notes, j + 1, string_index as int);
                    assert(played.len() < notes.len());
                }
                let k = steps.len();
                let open_note = standard_tuning(5 - note.string_index);
                let raw: u8 = MIDI_BASE + open_note + (note.fret as u8);
                let midi_note: u8 = if raw < MIDI_MIN {
                    MIDI_MIN
                } else if raw > MIDI_MAX {
                    MIDI_MAX
                } else {
                    raw
                };
                let jitter_draw = rand_u32(state);
                let jitter = (jitter_draw % (STRUM_JITTER_MS as u32 + 1)) as u64;
                let velocity_draw = rand_u32(state);
                let step = StrumStep {
                    midi_note,
                    delay_ms: k as u64 * STRUM_DELAY_MS + jitter,
                    velocity_draw,
                };
                proof {
                    assert(nth_random(start, (2 * k + 2) as nat) == spec_next_random(nth_random(start, (2 * k + 1) as nat)));
                    assert(nth_random(start, (2 * k + 1) as nat) == spec_next_random(nth_random(start, (2 * k) as nat)));
                    assert(strum_step_matches(step, *note, k as int, start));
                    played = played.push(*note);
                }
                steps.push(step);
                assert(forall|i: int| 0 <= i < k ==> steps@[i] == old_steps[i] && played[i] == old_played[i]);
            }
            j += 1;
        }
        assert(notes.take(notes.len() as int) =~= notes);
        next = string_index;
    }
    steps
}

} // verus!
