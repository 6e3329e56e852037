use govee::cli::{
    check_brightness, check_kelvin, parse_segments_127, parse_segments_75, AmbientArgs, CliPalette, CliVisMode, Palette, VisMode,
};

#[test]
fn segment_counts_in_range() {
    assert_eq!(parse_segments_127("1"), Ok(1));
    assert_eq!(parse_segments_127("127"), Ok(127));
    assert_eq!(parse_segments_127("+15"), Ok(15));
    assert_eq!(parse_segments_75("75"), Ok(75));
}

#[test]
fn segment_count_errors() {
    assert_eq!(parse_segments_127("0"), Err("segments must be 1-127, got 0".to_string()));
    assert_eq!(parse_segments_127("128"), Err("segments must be 1-127, got 128".to_string()));
    assert_eq!(parse_segments_75("76"), Err("segments must be 1-75, got 76".to_string()));
    assert_eq!(parse_segments_127("ten"), Err("invalid number 'ten'".to_string()));
    assert_eq!(parse_segments_127(""), Err("invalid number ''".to_string()));
    assert_eq!(parse_segments_127("-3"), Err("invalid number '-3'".to_string()));
    assert_eq!(
        parse_segments_127("99999999999999999999999"),
        Err("invalid number '99999999999999999999999'".to_string())
    );
}

#[test]
fn command_line_choices_map_to_engine() {
    assert_eq!(VisMode::from(CliVisMode::Energy), VisMode::Energy);
    assert_eq!(VisMode::from(CliVisMode::Drop), VisMode::Drop);
    assert_eq!(Palette::from(CliPalette::Rainbow), Palette::Rainbow);
    assert_eq!(Palette::from(CliPalette::Ice), Palette::Ice);
}

#[test]
fn ambient_defaults() {
    let a = AmbientArgs::default();
    assert_eq!(a.color, "primary");
    assert_eq!(a.brightness, 80);
    assert!(!a.dim && !a.verbose);
}

#[test]
fn command_value_ranges() {
    assert_eq!(check_brightness(1), Ok(()));
    assert_eq!(check_brightness(100), Ok(()));
    assert_eq!(check_brightness(0), Err("Brightness must be 1-100"));
    assert_eq!(check_brightness(101), Err("Brightness must be 1-100"));
    assert_eq!(check_kelvin(2000), Ok(()));
    assert_eq!(check_kelvin(9000), Ok(()));
    assert_eq!(check_kelvin(1999), Err("Color temperature must be 2000-9000K"));
    assert_eq!(check_kelvin(9001), Err("Color temperature must be 2000-9000K"));
}
