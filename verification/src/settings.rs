//! The user's settings that the pages restore and save: tempo and meter of
//! the metronome, the scale shown, and the tab player's mixer and tone.
//! The metronome volume and the tab tempo percentage, which are fractions,
//! are kept by the application beside these.
use vstd::prelude::*;

verus! {

#[derive(Debug, Clone, Copy, PartialEq, Eq, Structural)]
pub struct Settings {
    pub bpm: u32,
    pub beats_per_bar: u8,
    pub tab_guitar_volume: u8,
    pub tab_metronome_volume: u8,
    pub tab_metronome_enabled: bool,
    pub tab_guitar_tone: usize,
    pub scale_root: usize,
    pub scale_family: usize,
    pub scale_mode: usize,
}

pub open spec fn default_settings() -> Settings {
    Settings {
        bpm: 100,
        beats_per_bar: 4,
        tab_guitar_volume: 100,
        tab_metronome_volume: 100,
        tab_metronome_enabled: false,
        tab_guitar_tone: 0,
        scale_root: 0,
        scale_family: 0,
        scale_mode: 0,
    }
}

impl Default for Settings {
    fn default() -> (settings: Settings)
        ensures
            settings == default_settings(),
    {
        Settings {
            bpm: 100,
            beats_per_bar: 4,
            tab_guitar_volume: 100,
            tab_metronome_volume: 100,
            tab_metronome_enabled: false,
            tab_guitar_tone: 0,
            scale_root: 0,
            scale_family: 0,
            scale_mode: 0,
        }
    }
}

} // verus!
