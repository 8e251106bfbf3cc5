//! The main window's own decisions: stepping the tempo, which step buttons
//! are enabled, and the background image's style as the settings store it
//! and as the style chooser lists it.
use vstd::prelude::*;
use crate::metronome_timer::{BPM_MIN, BPM_MAX, BPB_MIN, BPB_MAX};
use crate::text::str_equal;

verus! {

/// The tempo after a step of `delta`, kept within the metronome's range.
pub open spec fn stepped_bpm(bpm: u32, delta: i32) -> u32 {
    let moved = bpm + delta;
    if moved < BPM_MIN { BPM_MIN } else if moved > BPM_MAX { BPM_MAX } else { moved as u32 }
}

pub fn add_beats_per_minute(bpm: u32, delta: i32) -> (stepped: u32)
    requires
        bpm <= i32::MAX,
        i32::MIN <= bpm + delta <= i32::MAX,
    ensures
        stepped == stepped_bpm(bpm, delta),
{
    let moved: i32 = bpm as i32 + delta;
    if moved < BPM_MIN as i32 {
        BPM_MIN
    } else if moved > BPM_MAX as i32 {
        BPM_MAX
    } else {
        moved as u32
    }
}

/// Which of the decrease and increase buttons are enabled for a value:
/// each is off at its end of the range.
pub fn step_buttons(value: u32, min: u32, max: u32) -> (enabled: (bool, bool))
    ensures
        enabled == (value != min, value != max),
{
    (value != min, value != max)
}

/// The tempo buttons' states.
pub fn tempo_buttons(bpm: u32) -> (enabled: (bool, bool))
    ensures
        enabled == (bpm != BPM_MIN, bpm != BPM_MAX),
{
    step_buttons(bpm, BPM_MIN, BPM_MAX)
}

/// The beats-per-bar buttons' states.
pub fn meter_buttons(beats_per_bar: u32) -> (enabled: (bool, bool))
    ensures
        enabled == (beats_per_bar != BPB_MIN, beats_per_bar != BPB_MAX),
{
    step_buttons(beats_per_bar, BPB_MIN, BPB_MAX)
}

/// How the background picture fills the window.
#[derive(Debug, Clone, Copy, PartialEq, Eq, Structural)]
pub enum BackgroundFit {
    Cover,
    Contain,
    Fill,
}

/// The stored style names, in the chooser's order.
pub open spec fn style_name(index: u32) -> Seq<char> {
    if index == 1 { "contain"@ } else if index == 2 { "fill"@ } else if index == 3 { "tile"@ } else { "cover"@ }
}

/// The chooser's row for a stored style (the first for an unknown one).
pub open spec fn style_index(style: Seq<char>) -> u32 {
    if style == "contain"@ { 1 } else if style == "fill"@ { 2 } else if style == "tile"@ { 3 } else { 0 }
}

/// The fit of a stored style: tiling is shown as cover, as is an unknown
/// style.
pub open spec fn style_fit(style: Seq<char>) -> BackgroundFit {
    if style == "contain"@ { BackgroundFit::Contain } else if style == "fill"@ { BackgroundFit::Fill } else { BackgroundFit::Cover }
}

pub fn background_style_name(index: u32) -> (name: &'static str)
    ensures
        name@ == style_name(index),
{
    if index == 1 { "contain" } else if index == 2 { "fill" } else if index == 3 { "tile" } else { "cover" }
}

pub fn background_style_index(style: &str) -> (index: u32)
    ensures
        index == style_index(style@),
{
    if str_equal(style, "contain") {
        1
    } else if str_equal(style, "fill") {
        2
    } else if str_equal(style, "tile") {
        3
    } else {
        0
    }
}

pub fn background_fit(style: &str) -> (fit: BackgroundFit)
    ensures
        fit == style_fit(style@),
{
    if str_equal(style, "contain") {
        BackgroundFit::Contain
    } else if str_equal(style, "fill") {
        BackgroundFit::Fill
    } else {
        BackgroundFit::Cover
    }
}

/// Choosing a row of the style chooser and reading the stored name back
/// selects the same row.
pub proof fn lemma_style_round_trip(index: u32)
    requires
        index < 4,
    ensures
        style_index(style_name(index)) == index,
{
    reveal_strlit("cover");
    reveal_strlit("contain");
    reveal_strlit("fill");
    reveal_strlit("tile");
    assert("cover"@.len() == 5 && "contain"@.len() == 7 && "fill"@.len() == 4 && "tile"@.len() == 4);
    assert("fill"@[0] != "tile"@[0]);
}

/// Stepping the tempo keeps it within the metronome's range.
pub proof fn lemma_stepped_bpm_in_range(bpm: u32, delta: i32)
    ensures
        BPM_MIN <= stepped_bpm(bpm, delta) <= BPM_MAX,
{
}

} // verus!
