use metronome::theme::{hex_color, Theme, ThemeColors, ThemeDraft};

fn make_minimal_theme() -> Theme {
    Theme {
        name: "Test".to_string(),
        version: 1,
        dark: false,
        colors: ThemeColors {
            accent_bg_color: "#ff0000".to_string(),
            accent_fg_color: None,
            theme_bg_color: None,
            theme_fg_color: None,
            window_fg_color: None,
            view_bg_color: None,
            borders: None,
        },
    }
}

fn make_full_theme() -> Theme {
    Theme {
        name: "Full".to_string(),
        version: 1,
        dark: true,
        colors: ThemeColors {
            accent_bg_color: "#bd93f9".to_string(),
            accent_fg_color: Some("#282a36".to_string()),
            theme_bg_color: Some("#282a36".to_string()),
            theme_fg_color: Some("#f8f8f2".to_string()),
            window_fg_color: Some("#6272a4".to_string()),
            view_bg_color: Some("#44475a".to_string()),
            borders: Some("#44475a".to_string()),
        },
    }
}

#[test]
fn test_to_css_minimal_theme_only_emits_accent() {
    let theme = make_minimal_theme();
    let css = theme.to_css();
    assert_eq!(css, "@define-color accent_bg_color #ff0000;\n");
}

#[test]
fn test_to_css_full_theme_emits_all_colors() {
    let theme = make_full_theme();
    let css = theme.to_css();
    assert!(css.contains("@define-color accent_bg_color #bd93f9;"));
    assert!(css.contains("@define-color accent_fg_color #282a36;"));
    assert!(css.contains("@define-color theme_bg_color #282a36;"));
    assert!(css.contains("@define-color theme_fg_color #f8f8f2;"));
    assert!(css.contains("@define-color window_fg_color #6272a4;"));
    assert!(css.contains("@define-color view_bg_color #44475a;"));
    assert!(css.contains("@define-color borders #44475a;"));
    assert_eq!(css.lines().count(), 7);
}

#[test]
fn test_sanitize_filename() {
    assert_eq!(Theme::sanitize_filename("Ocean"), "ocean.json");
    assert_eq!(Theme::sanitize_filename("Gruvbox Dark"), "gruvbox-dark.json");
    assert_eq!(Theme::sanitize_filename("My Theme! #2"), "my-theme---2.json");
}

#[test]
fn test_sanitize_filename_preserves_alphanumeric() {
    assert_eq!(Theme::sanitize_filename("abc123"), "abc123.json");
}

#[test]
fn test_to_css_does_not_emit_none_colors() {
    let theme = make_minimal_theme();
    let css = theme.to_css();
    assert!(!css.contains("theme_bg_color"));
    assert!(!css.contains("borders"));
    assert!(!css.contains("view_bg_color"));
}

#[test]
fn to_css_keeps_the_fixed_order() {
    let mut theme = make_minimal_theme();
    theme.colors.borders = Some("#111111".to_string());
    theme.colors.accent_fg_color = Some("#222222".to_string());
    assert_eq!(
        theme.to_css(),
        "@define-color accent_bg_color #ff0000;\n@define-color accent_fg_color #222222;\n@define-color borders #111111;\n"
    );
}

#[test]
fn sanitize_filename_lowercases_non_ascii_letters() {
    assert_eq!(Theme::sanitize_filename("Ünïcode Ω"), "ünïcode-ω.json");
}

#[test]
fn editor_colours_are_written_in_hex() {
    assert_eq!(hex_color(255, 0, 16), "#ff0010");
    assert_eq!(hex_color(0x28, 0x2a, 0x36), "#282a36");
}

#[test]
fn a_draft_without_a_name_is_not_saved() {
    let draft = ThemeDraft {
        name: String::new(),
        dark: true,
        accent_bg_color: (1, 2, 3),
        accent_fg_color: None,
        theme_bg_color: None,
        theme_fg_color: None,
        window_fg_color: None,
        view_bg_color: None,
        borders: None,
    };
    assert!(draft.to_theme().is_none());
}

#[test]
fn a_draft_becomes_a_theme_with_its_switched_on_colours() {
    let draft = ThemeDraft {
        name: "Mine".to_string(),
        dark: true,
        accent_bg_color: (0xbd, 0x93, 0xf9),
        accent_fg_color: Some((0x28, 0x2a, 0x36)),
        theme_bg_color: None,
        theme_fg_color: None,
        window_fg_color: None,
        view_bg_color: Some((0x44, 0x47, 0x5a)),
        borders: None,
    };
    let theme = draft.to_theme().expect("named draft");
    assert_eq!(theme.name, "Mine");
    assert_eq!(theme.version, 1);
    assert!(theme.dark);
    assert_eq!(theme.colors.accent_bg_color, "#bd93f9");
    assert_eq!(theme.colors.accent_fg_color.as_deref(), Some("#282a36"));
    assert_eq!(theme.colors.theme_bg_color, None);
    assert_eq!(theme.colors.view_bg_color.as_deref(), Some("#44475a"));
}
