use vstd::prelude::*;

pub mod scale_data;
pub mod text;
pub mod chord_builder;
pub mod theme;
pub mod tab_models;
pub mod gp5_format;
pub mod gp5_parser;
pub mod gp5_beats;
pub mod gp5_score;
pub mod tab_midi;
pub mod playback;
pub mod recent_files;
pub mod portable_settings;
pub mod xml_text;
pub mod gp7_records;
pub mod gp7_parser;
pub mod settings;
pub mod metronome_page;
pub mod scales_page;
pub mod tab_player_page;
pub mod ui;
pub mod metronome_timer;
pub mod theme_library;
pub mod guitar_strum;
pub mod tab_strip;
pub mod scale_chords;
pub mod voicing_text;
pub mod window_controls;
pub mod note_glows;
pub mod fretboard_notes;

verus! {

} // verus!
