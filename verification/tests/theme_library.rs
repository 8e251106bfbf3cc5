use metronome::theme::{Theme, ThemeColors, ThemeEntry};
use metronome::theme_library::{
    builtin_file_name, builtin_resource_path, builtin_theme_names, ThemeLibrary,
};

fn theme(name: &str, dark: bool, accent: &str) -> Theme {
    Theme {
        name: name.to_string(),
        version: 1,
        dark,
        colors: ThemeColors {
            accent_bg_color: accent.to_string(),
            accent_fg_color: None,
            theme_bg_color: None,
            theme_fg_color: None,
            window_fg_color: None,
            view_bg_color: None,
            borders: None,
        },
    }
}

fn library() -> ThemeLibrary {
    let mut library = ThemeLibrary::new();
    library.add(ThemeEntry { theme: theme("Nord", true, "#88c0d0"), builtin: true, file_name: "nord.json".to_string() });
    library.add(ThemeEntry { theme: theme("Mine", false, "#123456"), builtin: false, file_name: "mine.json".to_string() });
    library
}

#[test]
fn builtin_themes_are_listed_with_their_files() {
    let names = builtin_theme_names();
    assert_eq!(names.len(), 10);
    assert_eq!(names[0], "monokai");
    assert_eq!(names[9], "sunset");
    assert_eq!(builtin_resource_path("nord"), "/com/adrienplazas/Metronome/themes/nord.json");
    assert_eq!(builtin_file_name("nord"), "nord.json");
}

#[test]
fn applying_a_theme_gives_its_css_and_darkness() {
    let mut library = library();
    let style = library.apply_theme("Nord");
    assert_eq!(style.css, "@define-color accent_bg_color #88c0d0;\n");
    assert!(style.dark);
    assert_eq!(library.active_theme_name(), "Nord");
}

#[test]
fn applying_an_unknown_theme_falls_back_to_the_default() {
    let mut library = library();
    library.apply_theme("Nord");
    let style = library.apply_theme("Missing");
    assert_eq!(style.css, "");
    assert!(!style.dark);
    assert_eq!(library.active_theme_name(), "");
}

#[test]
fn applying_the_empty_name_is_the_default_look() {
    let mut library = library();
    let style = library.apply_theme("");
    assert_eq!(style.css, "");
    assert!(!style.dark);
    assert_eq!(library.active_theme_name(), "");
}

#[test]
fn saving_replaces_a_user_theme_of_the_same_name() {
    let mut library = library();
    library.record_user_theme(theme("Mine", true, "#000000"), "Mine.json".to_string());
    assert_eq!(library.themes.len(), 2);
    assert!(library.themes[1].theme.dark);
    assert_eq!(library.themes[1].file_name, "Mine.json");
    assert!(!library.themes[1].builtin);
}

#[test]
fn saving_a_builtin_name_adds_a_user_theme() {
    let mut library = library();
    library.record_user_theme(theme("Nord", false, "#000000"), "Nord.json".to_string());
    assert_eq!(library.themes.len(), 3);
    assert!(library.themes[0].builtin);
    assert!(!library.themes[2].builtin);
    assert_eq!(library.themes[2].file_name, "Nord.json");
}

#[test]
fn a_saved_theme_can_be_applied() {
    let mut library = library();
    library.record_user_theme(theme("Fresh", false, "#abcdef"), "Fresh.json".to_string());
    let style = library.apply_theme("Fresh");
    assert_eq!(style.css, "@define-color accent_bg_color #abcdef;\n");
    assert_eq!(library.active_theme_name(), "Fresh");
}

#[test]
fn only_user_themes_can_be_deleted() {
    let library = library();
    assert_eq!(library.user_theme_index("Mine"), Ok(1));
    assert_eq!(
        library.user_theme_index("Nord"),
        Err("Theme 'Nord' not found or is built-in".to_string())
    );
    assert_eq!(
        library.user_theme_index("Other"),
        Err("Theme 'Other' not found or is built-in".to_string())
    );
}

#[test]
fn deleting_the_active_theme_restores_the_default() {
    let mut library = library();
    library.apply_theme("Mine");
    let style = library.remove_theme(1, "Mine");
    assert_eq!(library.themes.len(), 1);
    let style = style.expect("the active theme was removed");
    assert_eq!(style.css, "");
    assert_eq!(library.active_theme_name(), "");
}

#[test]
fn deleting_another_theme_keeps_the_active_one() {
    let mut library = library();
    library.apply_theme("Nord");
    assert!(library.remove_theme(1, "Mine").is_none());
    assert_eq!(library.active_theme_name(), "Nord");
}

#[test]
fn export_finds_any_theme_by_name() {
    let library = library();
    assert_eq!(library.theme_to_export("Nord"), Ok(0));
    assert_eq!(library.theme_to_export("Mine"), Ok(1));
    assert_eq!(library.theme_to_export("Nope"), Err("Theme 'Nope' not found".to_string()));
}

#[test]
fn find_respects_the_user_only_flag() {
    let library = library();
    assert_eq!(library.find("Nord", false), Some(0));
    assert_eq!(library.find("Nord", true), None);
    assert_eq!(library.find("Mine", true), Some(1));
}

#[test]
fn the_chooser_lists_the_default_look_then_each_theme() {
    let mut library = library();
    let (cards, active) = library.theme_cards();
    assert_eq!(cards.len(), 3);
    assert_eq!(cards[0].name, "Default");
    assert_eq!(cards[0].accent_color, "#808080");
    assert!(cards[0].active);
    assert_eq!(active, 0);
    assert!(!cards[1].editable);
    assert!(cards[2].editable);
    assert_eq!(cards[1].accent_color, "#88c0d0");

    library.apply_theme("Mine");
    let (cards, active) = library.theme_cards();
    assert!(!cards[0].active);
    assert!(cards[2].active);
    assert_eq!(active, 2);
}

#[test]
fn a_chosen_card_names_its_theme() {
    let library = library();
    assert_eq!(library.theme_at_card(0), Some(String::new()));
    assert_eq!(library.theme_at_card(1), Some("Nord".to_string()));
    assert_eq!(library.theme_at_card(3), None);
}
