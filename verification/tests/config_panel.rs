use crosshair::calibrate::{
    commit_offsets, key_action, offset_label, slider_position, slider_target, step, Axis, Key,
    KeyAction,
};
use crosshair::config::{config_dir, config_path, config_temp_path, parse_hex_rgb, Config, DotParams};

#[test]
fn defaults_are_a_white_four_pixel_centered_dot() {
    let c = Config::default();
    assert_eq!(c.dot.size, 4);
    assert_eq!(c.dot.color, "#ffffff");
    assert_eq!(c.dot.offset_x, 0);
    assert_eq!(c.dot.offset_y, 0);
}

#[test]
fn hex_colors_parse() {
    assert_eq!(parse_hex_rgb("#ffffff"), Some((255, 255, 255)));
    assert_eq!(parse_hex_rgb("#fff"), Some((255, 255, 255)));
    assert_eq!(parse_hex_rgb(" #0a0B0c\n"), Some((10, 11, 12)));
    assert_eq!(parse_hex_rgb("123"), Some((17, 34, 51)));
    assert_eq!(parse_hex_rgb("##f00"), Some((255, 0, 0)));
    assert_eq!(parse_hex_rgb("+f+f+f"), None);
    assert_eq!(parse_hex_rgb("#+f+f+f"), None);
    assert_eq!(parse_hex_rgb("#ggg"), None);
    assert_eq!(parse_hex_rgb("#ffff"), None);
    assert_eq!(parse_hex_rgb(""), None);
    assert_eq!(parse_hex_rgb("é12"), None);
    assert_eq!(parse_hex_rgb("+ff"), None);
}

#[test]
fn dot_params_clamp_and_fall_back() {
    let mut c = Config::default();
    c.dot.size = 1;
    c.dot.color = "nonsense".to_string();
    c.dot.offset_x = 5000;
    c.dot.offset_y = -5000;
    let p = DotParams::from_config(&c);
    assert_eq!(p.rgb, (255, 255, 255));
    assert_eq!(p.size, 2);
    assert_eq!(p.offset_x, 2000);
    assert_eq!(p.offset_y, -2000);
    c.dot.size = 100;
    c.dot.color = "#00ff00".to_string();
    c.dot.offset_x = -3;
    c.dot.offset_y = 7;
    let p = DotParams::from_config(&c);
    assert_eq!(p.rgb, (0, 255, 0));
    assert_eq!(p.size, 64);
    assert_eq!((p.offset_x, p.offset_y), (-3, 7));
}

#[test]
fn config_locations() {
    assert_eq!(config_dir(Some("/xdg"), Some("/home/u")), "/xdg");
    assert_eq!(config_dir(None, Some("/home/u")), "/home/u/.config");
    assert_eq!(config_path("/home/u/.config"), "/home/u/.config/crosshair/config.toml");
    assert_eq!(config_temp_path("/xdg/"), "/xdg/crosshair/config.toml.tmp");
}

#[test]
fn arrow_keys_move_one_pixel() {
    assert_eq!(key_action(Key::Escape), KeyAction::Close);
    assert_eq!(key_action(Key::Left), KeyAction::Step(Axis::X, -1));
    assert_eq!(key_action(Key::Right), KeyAction::Step(Axis::X, 1));
    assert_eq!(key_action(Key::Up), KeyAction::Step(Axis::Y, -1));
    assert_eq!(key_action(Key::Down), KeyAction::Step(Axis::Y, 1));
    assert_eq!(key_action(Key::Other), KeyAction::Ignore);
    assert_eq!(step((0, 0), Axis::X, 1), (1, 0));
    assert_eq!(step((3, -4), Axis::Y, -1), (3, -5));
    assert_eq!(step((2000, 0), Axis::X, 1), (2000, 0));
    assert_eq!(step((0, -2000), Axis::Y, -1), (0, -2000));
}

#[test]
fn reset_recenters_and_commits_clamp() {
    assert_eq!(commit_offsets(0, 0), (0, 0));
    assert_eq!(commit_offsets(2500, -2001), (2000, -2000));
}

#[test]
fn sliders_cover_a_hundred_pixels() {
    assert_eq!(slider_position(150), 100);
    assert_eq!(slider_position(-101), -100);
    assert_eq!(slider_position(42), 42);
    assert_eq!(slider_target(5, (5, 0), Axis::X), None);
    assert_eq!(slider_target(6, (5, 0), Axis::X), Some((6, 0)));
    assert_eq!(slider_target(-100, (5, 9), Axis::Y), Some((5, -100)));
}

#[test]
fn offset_labels_always_show_a_sign() {
    assert_eq!(offset_label(0), "+0");
    assert_eq!(offset_label(5), "+5");
    assert_eq!(offset_label(-2000), "-2000");
    assert_eq!(offset_label(i32::MIN), "-2147483648");
    assert_eq!(offset_label(i32::MAX), format!("{:+}", i32::MAX));
}
