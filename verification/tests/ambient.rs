use govee::ambient::{
    ambient_colors, check_ambient_color, color_key, color_to_send, contains_text,
    read_scheme_color, scheme_changed,
};

#[test]
fn followable_colours() {
    assert_eq!(ambient_colors().len(), 6);
    assert!(check_ambient_color("tertiaryContainer").is_ok());
    let e = check_ambient_color("purple").err().unwrap();
    assert_eq!(e.message, "Invalid color 'purple'");
    assert_eq!(
        e.hint,
        "Available: primary, secondary, tertiary, primaryContainer, tertiaryContainer, surfaceTint"
    );
}

#[test]
fn dim_variant_key() {
    assert_eq!(color_key("primary", false), "primary");
    assert_eq!(color_key("primary", true), "primaryDim");
}

#[test]
fn scheme_file_changes() {
    assert!(contains_text("scheme.json.tmp", "scheme.json"));
    assert!(!contains_text("scheme.js", "scheme.json"));
    assert!(contains_text("abc", ""));
    assert!(scheme_changed(&[None, Some("other".to_string()), Some("scheme.json".to_string())]));
    assert!(!scheme_changed(&[None, Some("wallpaper.png".to_string())]));
    assert!(!scheme_changed(&[]));
}

#[test]
fn colour_from_scheme_text() {
    let text = r##"{"name":"x","colours":{"primary":"ffb4a9","primaryDim":"#8c1d18","n":5}}"##;
    assert_eq!(read_scheme_color(text, "primary"), Some((0xff, 0xb4, 0xa9)));
    assert_eq!(read_scheme_color(text, "primaryDim"), Some((0x8c, 0x1d, 0x18)));
    assert_eq!(read_scheme_color(text, "n"), None);
    assert_eq!(read_scheme_color(text, "secondary"), None);
    assert_eq!(read_scheme_color("not json", "primary"), None);
    assert_eq!(read_scheme_color(r#"{"colours":{"primary":"zz0000"}}"#, "primary"), None);
}

#[test]
fn colour_sent_only_when_it_changes() {
    assert_eq!(color_to_send(None, Some((1, 2, 3))), Some((1, 2, 3)));
    assert_eq!(color_to_send(Some((1, 2, 3)), Some((1, 2, 3))), None);
    assert_eq!(color_to_send(Some((1, 2, 3)), Some((1, 2, 4))), Some((1, 2, 4)));
    assert_eq!(color_to_send(Some((1, 2, 3)), None), None);
}
