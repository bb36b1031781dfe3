use gemini::ui::color::{
    black, blue, green, light_gray, red, transparent, white, Color, ColorMode, ColorState,
};

#[test]
fn named_colors() {
    assert_eq!(red(), Color::RGBA(255, 0, 0, 255));
    assert_eq!(green(), Color::RGBA(0, 255, 0, 255));
    assert_eq!(blue(), Color::RGBA(0, 0, 255, 255));
    assert_eq!(white(), Color::RGBA(255, 255, 255, 255));
    assert_eq!(black(), Color::RGBA(0, 0, 0, 255));
    assert_eq!(light_gray(), Color::RGBA(211, 211, 211, 255));
    assert_eq!(transparent(), Color::RGBA(0, 0, 0, 0));
    assert_eq!(Color::default(), white());
}

#[test]
fn color_state_starts_solid() {
    let s = ColorState::new(red());
    assert_eq!(s.color, red());
    assert_eq!(s.mode, ColorMode::Solid);
    let d = ColorState::default();
    assert_eq!(d.color, white());
    assert_eq!(d.mode, ColorMode::Solid);
    assert_eq!(ColorMode::default(), ColorMode::Solid);
}

#[test]
fn set_color_keeps_the_mode() {
    let mut s = ColorState::new(red());
    s.set_mode(ColorMode::Overlay(blue()));
    s.set_color(green());
    assert_eq!(s.color, green());
    assert_eq!(s.mode, ColorMode::Overlay(blue()));
}

#[test]
fn set_mode_keeps_the_color() {
    let mut s = ColorState::new(red());
    s.set_mode(ColorMode::Overlay(blue()));
    assert_eq!(s.color, red());
    assert_eq!(s.mode, ColorMode::Overlay(blue()));
    s.set_mode(ColorMode::Solid);
    assert_eq!(s, ColorState::new(red()));
}

#[test]
fn opaque_foreground_covers_the_background() {
    let out = Color::src_over_blend(&[10, 20, 30, 255], &[200, 100, 50, 255]);
    assert_eq!(out, [10, 20, 30, 255]);
}

#[test]
fn transparent_foreground_shows_the_background() {
    let out = Color::src_over_blend(&[10, 20, 30, 0], &[200, 100, 50, 7]);
    assert_eq!(out, [200, 100, 50, 255]);
}

#[test]
fn half_transparent_foreground_is_weighed_and_rounded() {
    // alpha 128: (255 * 128 + 0 * 127 + 127) / 255 = 128
    let out = Color::src_over_blend(&[255, 0, 100, 128], &[0, 255, 200, 255]);
    // red: 255*128/255 = 128; green: 255*127/255 = 127;
    // blue: (100*128 + 200*127)/255 = 38200/255 = 149.8 -> 150
    assert_eq!(out, [128, 127, 150, 255]);
}

#[test]
fn components_round_trip() {
    let c = Color::RGBA(1, 2, 3, 4);
    assert_eq!(c.components(), [1, 2, 3, 4]);
    assert_eq!(Color::from_components([1, 2, 3, 4]), c);
}
