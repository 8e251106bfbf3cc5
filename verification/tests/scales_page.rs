use metronome::scale_data::all_families;
use metronome::scales_page::{ScalesMessage, ScalesPage};
use metronome::settings::Settings;

fn make_page() -> ScalesPage {
    ScalesPage::new()
}

fn current_scale_name(page: &ScalesPage) -> &'static str {
    all_families()[page.family].scales[page.mode].name
}

fn current_variant_count(page: &ScalesPage) -> usize {
    all_families()[page.family].scales[page.mode].pentatonic_variants.len()
}

#[test]
fn scales_page_test_initial_state() {
    let page = make_page();
    assert_eq!(page.root, 0);
    assert_eq!(page.family, 0);
    assert_eq!(page.mode, 0);
    assert_eq!(page.chord_structure, 0);
}

#[test]
fn test_set_root() {
    let mut page = make_page();
    page.update(ScalesMessage::SetRoot(7));
    assert_eq!(page.root, 7);
}

#[test]
fn test_set_root_clamped() {
    let mut page = make_page();
    page.update(ScalesMessage::SetRoot(99));
    assert_eq!(page.root, 11);
}

#[test]
fn test_set_family_resets_mode() {
    let mut page = make_page();
    page.update(ScalesMessage::SetMode(3));
    assert_eq!(page.mode, 3);
    page.update(ScalesMessage::SetFamily(1));
    assert_eq!(page.mode, 0);
    assert_eq!(page.family, 1);
}

#[test]
fn test_set_mode_clamped() {
    let mut page = make_page();
    page.update(ScalesMessage::SetMode(999));
    let max_mode = all_families()[0].scales.len() - 1;
    assert_eq!(page.mode, max_mode);
}

#[test]
fn test_chord_structure_resets_inversion() {
    let mut page = make_page();
    page.inversion = 2;
    page.update(ScalesMessage::SetChordStructure(1));
    assert_eq!(page.chord_structure, 1);
    assert_eq!(page.inversion, 0);
}

#[test]
fn test_cycle_inversion() {
    let mut page = make_page();
    page.update(ScalesMessage::CycleInversion);
    assert_eq!(page.inversion, 1);
    page.update(ScalesMessage::CycleInversion);
    assert_eq!(page.inversion, 2);
    page.update(ScalesMessage::CycleInversion);
    assert_eq!(page.inversion, 0);
}

#[test]
fn test_current_scale() {
    let page = make_page();
    assert_eq!(current_scale_name(&page), "Ionian");
}

#[test]
fn test_pentatonic_toggle() {
    let mut page = make_page();
    assert!(current_variant_count(&page) > 0);
    page.update(ScalesMessage::TogglePentatonic);
    assert_eq!(page.pentatonic_variant, 1);
}

#[test]
fn test_pentatonic_no_variants_is_noop() {
    let mut page = make_page();
    page.update(ScalesMessage::SetFamily(3));
    assert_eq!(current_variant_count(&page), 0);
    page.update(ScalesMessage::TogglePentatonic);
    assert_eq!(page.pentatonic_variant, 0);
}

#[test]
fn test_pentatonic_cycles_back_to_zero() {
    let mut page = make_page();
    let variant_count = current_variant_count(&page);
    for _ in 0..=variant_count {
        page.update(ScalesMessage::TogglePentatonic);
    }
    assert_eq!(page.pentatonic_variant, 0);
}

#[test]
fn test_set_mode_after_family_change_clamps() {
    let mut page = make_page();
    page.update(ScalesMessage::SetFamily(3));
    let max_mode = all_families()[3].scales.len() - 1;
    page.update(ScalesMessage::SetMode(999));
    assert_eq!(page.mode, max_mode);
}

#[test]
fn test_chord_structure_out_of_bounds_stores_value() {
    let mut page = make_page();
    page.update(ScalesMessage::SetChordStructure(999));
    assert_eq!(page.chord_structure, 999);
}

#[test]
fn test_family_change_resets_chord_structure() {
    let mut page = make_page();
    page.update(ScalesMessage::SetChordStructure(5));
    assert_eq!(page.chord_structure, 5);
    page.update(ScalesMessage::SetFamily(1));
    assert_eq!(page.chord_structure, 0);
}

#[test]
fn test_restore_then_family_change_resets_mode() {
    let mut page = make_page();
    let mut settings = Settings::default();
    settings.scale_root = 5;
    settings.scale_family = 0;
    settings.scale_mode = 3;
    page.restore(&settings);
    assert_eq!(page.mode, 3);
    page.update(ScalesMessage::SetFamily(1));
    assert_eq!(page.mode, 0);
    assert_eq!(page.root, 5);
}

#[test]
fn test_save_captures_scale_state() {
    let mut page = make_page();
    page.update(ScalesMessage::SetRoot(7));
    page.update(ScalesMessage::SetFamily(2));
    let mut settings = Settings::default();
    page.save(&mut settings);
    assert_eq!(settings.scale_root, 7);
    assert_eq!(settings.scale_family, 2);
    assert_eq!(settings.scale_mode, 0);
}

#[test]
fn test_set_family_clamped_to_last() {
    let mut page = make_page();
    page.update(ScalesMessage::SetFamily(42));
    assert_eq!(page.family, 4);
}
