use metronome::metronome_page::MetronomeMessage;
use metronome::scales_page::ScalesMessage;
use metronome::settings::Settings;
use metronome::tab_player_page::TabPlayerMessage;
use metronome::ui::{App, AppMessage, Page, Theme};

#[test]
fn the_application_starts_on_the_metronome_with_the_settings() {
    let settings = Settings { bpm: 132, beats_per_bar: 3, scale_root: 2, ..Settings::default() };
    let app = App::new(settings);
    assert_eq!(app.page, Page::Metronome);
    assert_eq!(app.metronome.bpm, 132);
    assert_eq!(app.metronome.beats_per_bar, 3);
    assert_eq!(app.scales.root, 2);
    assert_eq!(app.theme(), Theme::Dark);
    assert_eq!(app.theme().name(), "Fluent Dark");
    assert!(app.theme().is_dark());
    assert_eq!(Theme::Light.name(), "Fluent Light");
}

#[test]
fn user_messages_write_the_settings_and_ticks_do_not() {
    let mut app = App::new(Settings::default());
    let outcome = app.update(AppMessage::Metronome(MetronomeMessage::SetBpm(90)));
    assert!(outcome.persist);
    assert_eq!(app.settings.bpm, 90);

    app.update(AppMessage::Metronome(MetronomeMessage::TogglePlay));
    app.metronome.bpm = 95;
    let outcome = app.update(AppMessage::Metronome(MetronomeMessage::Tick));
    assert!(!outcome.persist);
    assert_eq!(outcome.click, Some(false));
    assert_eq!(app.settings.bpm, 90);

    let outcome = app.update(AppMessage::TabPlayer(TabPlayerMessage::OnBeat(0)));
    assert!(!outcome.persist);
}

#[test]
fn messages_go_to_their_page() {
    let mut app = App::new(Settings::default());
    app.update(AppMessage::SwitchPage(Page::Scales));
    assert_eq!(app.page, Page::Scales);
    app.update(AppMessage::Scales(ScalesMessage::SetFamily(2)));
    assert_eq!(app.scales.family, 2);
    assert_eq!(app.settings.scale_family, 2);
    let outcome = app.update(AppMessage::TabPlayer(TabPlayerMessage::CycleTone));
    assert_eq!(app.tab_player.tone_index, 1);
    assert_eq!(outcome.actions.len(), 1);
    assert_eq!(app.settings.tab_guitar_tone, 1);
}

#[test]
fn the_application_says_which_messages_it_can_take() {
    let mut app = App::new(Settings::default());
    assert!(app.accepts(AppMessage::Metronome(MetronomeMessage::Tick)));
    app.metronome.is_playing = true;
    app.metronome.beats_per_bar = 0;
    assert!(!app.accepts(AppMessage::Metronome(MetronomeMessage::Tick)));
    app.scales.family = 9;
    assert!(!app.accepts(AppMessage::Scales(ScalesMessage::TogglePentatonic)));
    assert!(app.accepts(AppMessage::SwitchPage(Page::TabPlayer)));
    assert!(app.accepts(AppMessage::TabPlayer(TabPlayerMessage::NextBar)));
}
