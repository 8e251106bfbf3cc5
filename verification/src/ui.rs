//! The application's pages and its routing of messages: which page shows,
//! which page a message goes to, and when the settings are written back.
use vstd::prelude::*;
use crate::settings::Settings;
use crate::metronome_page::{MetronomePage, MetronomeMessage, metronome_step, metronome_accepts};
use crate::scales_page::{ScalesPage, ScalesMessage, scales_step, scales_accepts};
use crate::tab_player_page::{TabPlayerPage, TabPlayerMessage, PageAction, PageState, page_step, page_accepts, actions_view};

verus! {

#[derive(Debug, Clone, Copy, PartialEq, Eq, Structural)]
pub enum Page {
    Metronome,
    Scales,
    TabPlayer,
}

/// The colour theme of the interface.
#[derive(Debug, Clone, Copy, PartialEq, Eq, Structural)]
pub enum Theme {
    Dark,
    Light,
}

impl Theme {
    /// The theme's name as the interface lists it.
    pub fn name(&self) -> (name: &'static str)
        ensures
            name@ == (match *self { Theme::Dark => "Fluent Dark"@, Theme::Light => "Fluent Light"@ }),
    {
        match self {
            Theme::Dark => "Fluent Dark",
            Theme::Light => "Fluent Light",
        }
    }

    /// Whether the theme is a dark one.
    pub fn is_dark(&self) -> (dark: bool)
        ensures
            dark == (*self == Theme::Dark),
    {
        match self {
            Theme::Dark => true,
            Theme::Light => false,
        }
    }
}

impl Default for Theme {
    fn default() -> (theme: Theme)
        ensures
            theme == Theme::Dark,
    {
        Theme::Dark
    }
}

#[derive(Debug, Clone, Copy, PartialEq, Eq, Structural)]
pub enum AppMessage {
    SwitchPage(Page),
    Metronome(MetronomeMessage),
    Scales(ScalesMessage),
    TabPlayer(TabPlayerMessage),
}

/// What the application does after a message: the click to sound, the tab
/// player's actions, and whether to write the settings file.
pub struct AppOutcome {
    pub click: Option<bool>,
    pub actions: Vec<PageAction>,
    pub persist: bool,
}

pub struct App {
    pub page: Page,
    pub metronome: MetronomePage,
    pub scales: ScalesPage,
    pub tab_player: TabPlayerPage,
    pub settings: Settings,
}

/// Ticks and beat callbacks come many times a second and are not the
/// user's doing: they do not write the settings.
pub open spec fn persists(message: AppMessage) -> bool {
    !(message == AppMessage::Metronome(MetronomeMessage::Tick) || message is TabPlayer && message->TabPlayer_0 is OnBeat)
}

/// The settings with every page's part written in.
pub open spec fn saved_settings(settings: Settings, metronome: MetronomePage, scales: ScalesPage, tab: PageState) -> Settings {
    Settings {
        bpm: metronome.bpm,
        beats_per_bar: metronome.beats_per_bar,
        scale_root: scales.root,
        scale_family: scales.family,
        scale_mode: scales.mode,
        tab_guitar_volume: tab.guitar_volume,
        tab_metronome_volume: tab.metronome_volume,
        tab_metronome_enabled: tab.metronome_enabled,
        tab_guitar_tone: tab.tone_index,
    }
}

/// The messages the application can route: each page's own conditions.
pub open spec fn app_accepts(app: App, message: AppMessage) -> bool {
    match message {
        AppMessage::Metronome(m) => metronome_accepts(app.metronome, m),
        AppMessage::Scales(m) => scales_accepts(app.scales, m),
        AppMessage::TabPlayer(m) => page_accepts(app.tab_player.state(), app.tab_player.score_of(), m),
        AppMessage::SwitchPage(_) => true,
    }
}

impl App {
    /// The application on the metronome page, each page restored from the
    /// settings.
    pub fn new(settings: Settings) -> (app: App)
        ensures
            app.page == Page::Metronome,
            app.settings == settings,
            app.metronome == (MetronomePage { bpm: settings.bpm, beats_per_bar: settings.beats_per_bar, is_playing: false, current_beat: 0 }),
            app.scales == (ScalesPage { root: settings.scale_root, family: settings.scale_family, mode: settings.scale_mode, chord_structure: 0, inversion: 0, pentatonic_variant: 0 }),
            app.tab_player.score is None,
            app.tab_player.state() == (PageState {
                has_score: false,
                is_playing: false,
                current_beat: 0,
                selected_track: 0,
                guitar_volume: settings.tab_guitar_volume,
                metronome_volume: settings.tab_metronome_volume,
                metronome_enabled: settings.tab_metronome_enabled,
                loop_active: false,
                tone_index: settings.tab_guitar_tone,
                count_in_bars: 0,
            }),
    {
        let mut metronome = MetronomePage::new();
        metronome.restore(&settings);
        let mut scales = ScalesPage::new();
        scales.restore(&settings);
        let mut tab_player = TabPlayerPage::new();
        tab_player.restore(&settings);
        App { page: Page::Metronome, metronome, scales, tab_player, settings }
    }

    /// The interface is always dark.
    pub fn theme(&self) -> (theme: Theme)
        ensures
            theme == Theme::Dark,
    {
        Theme::Dark
    }

    /// Whether the application can route the message (see `app_accepts`).
    pub fn accepts(&self, message: AppMessage) -> (ok: bool)
        ensures
            ok == app_accepts(*self, message),
    {
        match message {
            AppMessage::Metronome(m) => self.metronome.accepts(m),
            AppMessage::Scales(m) => self.scales.accepts(m),
            AppMessage::TabPlayer(m) => self.tab_player.accepts(m),
            AppMessage::SwitchPage(_) => true,
        }
    }

    /// Routes a message to its page; a message the user sent writes every
    /// page's part into the settings.
    pub fn update(&mut self, message: AppMessage) -> (outcome: AppOutcome)
        requires
            app_accepts(*old(self), message),
        ensures
            outcome.persist == persists(message),
            final(self).tab_player.score == old(self).tab_player.score,
            final(self).page == (match message { AppMessage::SwitchPage(p) => p, _ => old(self).page }),
            final(self).metronome == (match message { AppMessage::Metronome(m) => metronome_step(old(self).metronome, m).0, _ => old(self).metronome }),
            outcome.click == (match message { AppMessage::Metronome(m) => metronome_step(old(self).metronome, m).1, _ => None }),
            final(self).scales == (match message { AppMessage::Scales(m) => scales_step(old(self).scales, m), _ => old(self).scales }),
            final(self).tab_player.state() == (match message {
                AppMessage::TabPlayer(m) => page_step(old(self).tab_player.state(), old(self).tab_player.score_of(), m).0,
                _ => old(self).tab_player.state(),
            }),
            actions_view(outcome.actions@) == (match message {
                AppMessage::TabPlayer(m) => page_step(old(self).tab_player.state(), old(self).tab_player.score_of(), m).1,
                _ => Seq::empty(),
            }),
            final(self).settings == (if persists(message) {
                saved_settings(old(self).settings, final(self).metronome, final(self).scales, final(self).tab_player.state())
            } else {
                old(self).settings
            }),
    {
        let persist = match message {
            AppMessage::Metronome(MetronomeMessage::Tick) => false,
            AppMessage::TabPlayer(TabPlayerMessage::OnBeat(_)) => false,
            _ => true,
        };
        let mut click: Option<bool> = None;
        let mut actions: Vec<PageAction> = Vec::new();
        match message {
            AppMessage::SwitchPage(page) => {
                self.page = page;
            },
            AppMessage::Metronome(m) => {
                click = self.metronome.update(m);
            },
            AppMessage::Scales(m) => {
                self.scales.update(m);
            },
            AppMessage::TabPlayer(m) => {
                actions = self.tab_player.update(m);
            },
        }
        if persist {
            self.metronome.save(&mut self.settings);
            self.scales.save(&mut self.settings);
            self.tab_player.save(&mut self.settings);
        }
        assert(message is TabPlayer || actions_view(actions@) =~= Seq::<crate::tab_player_page::ActionView>::empty());
        AppOutcome { click, actions, persist }
    }
}

} // verus!
