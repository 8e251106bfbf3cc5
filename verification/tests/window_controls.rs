use metronome::window_controls::{
    add_beats_per_minute, background_fit, background_style_index, background_style_name, meter_buttons,
    tempo_buttons, BackgroundFit,
};

#[test]
fn tempo_steps_stay_in_range() {
    assert_eq!(add_beats_per_minute(100, 10), 110);
    assert_eq!(add_beats_per_minute(255, 10), 260);
    assert_eq!(add_beats_per_minute(25, -10), 20);
    assert_eq!(add_beats_per_minute(100, -1), 99);
}

#[test]
fn step_buttons_turn_off_at_the_ends() {
    assert_eq!(tempo_buttons(20), (false, true));
    assert_eq!(tempo_buttons(260), (true, false));
    assert_eq!(tempo_buttons(120), (true, true));
    assert_eq!(meter_buttons(1), (false, true));
    assert_eq!(meter_buttons(99), (true, false));
}

#[test]
fn background_styles_map_to_rows_and_fits() {
    for index in 0..4u32 {
        assert_eq!(background_style_index(background_style_name(index)), index);
    }
    assert_eq!(background_style_name(7), "cover");
    assert_eq!(background_style_index("unknown"), 0);
    assert_eq!(background_fit("contain"), BackgroundFit::Contain);
    assert_eq!(background_fit("fill"), BackgroundFit::Fill);
    assert_eq!(background_fit("tile"), BackgroundFit::Cover);
    assert_eq!(background_fit(""), BackgroundFit::Cover);
}
