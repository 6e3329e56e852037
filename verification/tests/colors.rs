use govee::colors::{get_scene, hex_code_text, hex_to_rgb, scene_names, Scene};

#[test]
fn hex_to_rgb_valid() {
    assert_eq!(hex_to_rgb("#ff0000"), Some((255, 0, 0)));
    assert_eq!(hex_to_rgb("00ff00"), Some((0, 255, 0)));
    assert_eq!(hex_to_rgb("#000000"), Some((0, 0, 0)));
    assert_eq!(hex_to_rgb("#ffffff"), Some((255, 255, 255)));
}

#[test]
fn hex_to_rgb_invalid() {
    assert_eq!(hex_to_rgb(""), None);
    assert_eq!(hex_to_rgb("#fff"), None);
    assert_eq!(hex_to_rgb("zzzzzz"), None);
}

#[test]
fn hex_to_rgb_edge_cases() {
    // Every leading '#' is dropped; upper case digits are read too.
    assert_eq!(hex_to_rgb("##A0b1C2"), Some((0xA0, 0xB1, 0xC2)));
    // Seven digits, or a non-ASCII character, are refused.
    assert_eq!(hex_to_rgb("#1234567"), None);
    assert_eq!(hex_to_rgb("#12345é"), None);
}

#[test]
fn hex_code_round_trips() {
    let c = (18, 171, 239);
    let code = hex_code_text(c);
    assert_eq!(code, "#12ABEF");
    assert_eq!(hex_to_rgb(&code), Some(c));
}

#[test]
fn scenes_by_name() {
    assert_eq!(get_scene("movie"), Some(Scene { r: 20, g: 10, b: 40, temp: 0 }));
    assert_eq!(get_scene("aurora"), Some(Scene { r: 0, g: 200, b: 150, temp: 0 }));
    assert_eq!(get_scene("disco"), None);
    for name in scene_names() {
        assert!(get_scene(name).is_some());
    }
}
