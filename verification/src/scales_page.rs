//! The scales page: root note, scale family and mode, chord structure with
//! its inversion, and the pentatonic variant shown on the fretboard.
use vstd::prelude::*;
use crate::scale_data::{all_families, family_len, table_pentatonics};
use crate::settings::Settings;

verus! {

#[derive(Debug, Clone, Copy, PartialEq, Eq, Structural)]
pub enum ScalesMessage {
    SetRoot(usize),
    SetFamily(usize),
    SetMode(usize),
    SetChordStructure(usize),
    CycleInversion,
    TogglePentatonic,
}

#[derive(Debug, Clone, Copy, PartialEq, Eq, Structural)]
pub struct ScalesPage {
    pub root: usize,
    pub family: usize,
    pub mode: usize,
    pub chord_structure: usize,
    pub inversion: usize,
    pub pentatonic_variant: usize,
}

/// The number of families in the built-in table.
pub open spec fn family_count() -> nat {
    5
}

/// The number of pentatonic variants of the page's scale.
pub open spec fn pentatonic_count(page: ScalesPage) -> nat {
    table_pentatonics(page.family as int, page.mode as int).len()
}

pub open spec fn scales_step(page: ScalesPage, message: ScalesMessage) -> ScalesPage {
    match message {
        ScalesMessage::SetRoot(root) => ScalesPage { root: if root < 11 { root } else { 11 }, ..page },
        ScalesMessage::SetFamily(family) => ScalesPage {
            family: if family < 4 { family } else { 4 },
            mode: 0,
            chord_structure: 0,
            ..page
        },
        ScalesMessage::SetMode(mode) => {
            let last = if family_len(page.family as int) > 0 { family_len(page.family as int) - 1 } else { 0 };
            ScalesPage { mode: if mode < last { mode } else { last as usize }, chord_structure: 0, ..page }
        },
        ScalesMessage::SetChordStructure(structure) => ScalesPage { chord_structure: structure, inversion: 0, ..page },
        ScalesMessage::CycleInversion => ScalesPage { inversion: ((page.inversion + 1) % 3) as usize, ..page },
        ScalesMessage::TogglePentatonic => if pentatonic_count(page) > 0 {
            ScalesPage { pentatonic_variant: ((page.pentatonic_variant + 1) % (pentatonic_count(page) as int + 1)) as usize, ..page }
        } else {
            page
        },
    }
}

/// The messages a page can take: a mode needs a family of the table, the
/// pentatonic toggle a scale of the table, and the counters room to count.
pub open spec fn scales_accepts(page: ScalesPage, message: ScalesMessage) -> bool {
    &&& (message is SetMode ==> page.family < family_count())
    &&& (message == ScalesMessage::TogglePentatonic ==> page.family < family_count() && page.mode < family_len(page.family as int) && page.pentatonic_variant < usize::MAX)
    &&& (message == ScalesMessage::CycleInversion ==> page.inversion < usize::MAX)
}

impl ScalesPage {
    /// Whether the page can take the message (see `scales_accepts`).
    pub fn accepts(&self, message: ScalesMessage) -> (ok: bool)
        ensures
            ok == scales_accepts(*self, message),
    {
        match message {
            ScalesMessage::SetMode(_) => self.family < 5,
            ScalesMessage::TogglePentatonic => {
                if self.family >= 5 {
                    return false;
                }
                let families = all_families();
                let count = families[self.family].scales.len();
                self.mode < count && self.pentatonic_variant < usize::MAX
            },
            ScalesMessage::CycleInversion => self.inversion < usize::MAX,
            _ => true,
        }
    }

    pub fn new() -> (page: ScalesPage)
        ensures
            page == (ScalesPage { root: 0, family: 0, mode: 0, chord_structure: 0, inversion: 0, pentatonic_variant: 0 }),
    {
        ScalesPage { root: 0, family: 0, mode: 0, chord_structure: 0, inversion: 0, pentatonic_variant: 0 }
    }

    pub fn update(&mut self, message: ScalesMessage)
        requires
            scales_accepts(*old(self), message),
        ensures
            *final(self) == scales_step(*old(self), message),
    {
        match message {
            ScalesMessage::SetRoot(root) => {
                self.root = if root < 11 { root } else { 11 };
            },
            ScalesMessage::SetFamily(family) => {
                let families = all_families();
                let last = families.len() - 1;
                self.family = if family < last { family } else { last };
                self.mode = 0;
                self.chord_structure = 0;
            },
            ScalesMessage::SetMode(mode) => {
                let families = all_families();
                let count = families[self.family].scales.len();
                let last = count.saturating_sub(1);
                self.mode = if mode < last { mode } else { last };
                self.chord_structure = 0;
            },
            ScalesMessage::SetChordStructure(structure) => {
                self.chord_structure = structure;
                self.inversion = 0;
            },
            ScalesMessage::CycleInversion => {
                self.inversion = (self.inversion + 1) % 3;
            },
            ScalesMessage::TogglePentatonic => {
                let families = all_families();
                let variants = families[self.family].scales[self.mode].pentatonic_variants.len();
                proof {
                    let scale = families@[self.family as int].scales@[self.mode as int];
                    assert(crate::scale_data::scale_matches_table(scale, self.family as int, self.mode as int));
                    assert(scale.pentatonic_variants@.len() == crate::scale_data::pentatonic_view(scale).len());
                }
                if variants > 0 {
                    self.pentatonic_variant = (self.pentatonic_variant + 1) % (variants + 1);
                }
            },
        }
    }

    /// Takes root, family and mode from the settings.
    pub fn restore(&mut self, settings: &Settings)
        ensures
            *final(self) == (ScalesPage { root: settings.scale_root, family: settings.scale_family, mode: settings.scale_mode, ..*old(self) }),
    {
        self.root = settings.scale_root;
        self.family = settings.scale_family;
        self.mode = settings.scale_mode;
    }

    /// Writes root, family and mode into the settings.
    pub fn save(&self, settings: &mut Settings)
        ensures
            *final(settings) == (Settings { scale_root: self.root, scale_family: self.family, scale_mode: self.mode, ..*old(settings) }),
    {
        settings.scale_root = self.root;
        settings.scale_family = self.family;
        settings.scale_mode = self.mode;
    }
}

/// The page stays on a scale of the table: from a page on one, every
/// message keeps the root a pitch class, the family and mode in the table
/// and the inversion below 3; messages that keep the scale keep the
/// pentatonic variant at most the scale's count of variants.
pub proof fn lemma_scales_stay_in_table(page: ScalesPage, message: ScalesMessage)
    requires
        page.root < 12,
        page.family < family_count(),
        page.mode < family_len(page.family as int),
        page.inversion < 3,
        page.pentatonic_variant <= pentatonic_count(page),
    ensures
        ({
            let after = scales_step(page, message);
            &&& after.root < 12
            &&& after.family < family_count()
            &&& after.mode < family_len(after.family as int)
            &&& after.inversion < 3
            &&& !(message is SetFamily || message is SetMode) ==> after.pentatonic_variant <= pentatonic_count(after)
        }),
{
}

} // verus!
