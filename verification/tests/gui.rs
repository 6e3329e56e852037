use govee::gui::{
    apply_tristate, clamp_loaded_segments, clamp_segments, default_use_location, page_from_name,
    page_name, validate_time, AmbientConfig, ControlsConfig, GeneralConfig, Page, SunlightConfig,
    TriState, MAX_SEGMENTS,
};

fn invalid(t: TriState<String>) -> Option<String> {
    match t {
        TriState::Invalid(e) => Some(e),
        _ => None,
    }
}

#[test]
fn time_input_verdicts() {
    assert!(matches!(validate_time(""), TriState::Incomplete));
    assert!(matches!(validate_time("2"), TriState::Incomplete));
    assert_eq!(invalid(validate_time("3")), Some("expected HH:MM".to_string()));
    assert!(matches!(validate_time("23"), TriState::Incomplete));
    assert_eq!(invalid(validate_time("24")), Some("hour 00-23".to_string()));
    assert!(matches!(validate_time("07:"), TriState::Incomplete));
    assert_eq!(invalid(validate_time("07-")), Some("expected HH:MM".to_string()));
    assert!(matches!(validate_time("07:5"), TriState::Incomplete));
    assert_eq!(invalid(validate_time("07:6")), Some("hour 00-23, minute 00-59".to_string()));
    match validate_time("07:59") {
        TriState::Valid(v) => assert_eq!(v, "07:59"),
        _ => panic!("expected a valid time"),
    }
    assert_eq!(invalid(validate_time("07:60")), Some("hour 00-23, minute 00-59".to_string()));
    assert_eq!(invalid(validate_time("07:590")), Some("expected HH:MM".to_string()));
}

#[test]
fn tristate_commits() {
    let mut slot: Option<u32> = Some(1);
    let mut err: Option<String> = Some("old".to_string());
    assert!(!apply_tristate(TriState::Incomplete, &mut slot, &mut err));
    assert_eq!((slot, err.clone()), (Some(1), None));
    assert!(!apply_tristate(TriState::Invalid("bad".to_string()), &mut slot, &mut err));
    assert_eq!((slot, err.clone()), (Some(1), Some("bad".to_string())));
    assert!(apply_tristate(TriState::Valid(7), &mut slot, &mut err));
    assert_eq!((slot, err), (Some(7), None));
}

#[test]
fn page_names_round_trip() {
    for p in [Page::Controls, Page::Themes, Page::Screen, Page::Audio, Page::Ambient, Page::Sunlight] {
        assert_eq!(page_from_name(page_name(p)), p);
    }
    assert_eq!(page_from_name("settings"), Page::Controls);
}

#[test]
fn segment_clamps() {
    assert_eq!(MAX_SEGMENTS, 10);
    assert_eq!(clamp_segments(4), 4);
    assert_eq!(clamp_segments(50), 10);
    assert_eq!(clamp_loaded_segments(0), 1);
    assert_eq!(clamp_loaded_segments(10), 10);
    assert_eq!(clamp_loaded_segments(11), 10);
}

#[test]
fn config_defaults() {
    let g = GeneralConfig::default();
    assert_eq!((g.last_device_ip, g.last_page.as_str()), (None, "controls"));
    let c = ControlsConfig::default();
    assert_eq!((c.brightness, c.color, c.color_temp), (80, [124, 58, 237], 4000));
    let a = AmbientConfig::default();
    assert_eq!((a.color.as_str(), a.brightness, a.dim), ("primary", 80, false));
    let s = SunlightConfig::default();
    assert_eq!(s.preset, "coastal");
    assert_eq!((s.brightness, s.segments, s.transition), (80, 10, 45));
    assert_eq!((s.day_temp, s.night_temp), (6500, 3000));
    assert!(s.use_location && default_use_location());
}

#[test]
fn sunlight_arguments() {
    let mut s = SunlightConfig::default();
    assert!(!s.is_restartable());
    assert_eq!(
        s.build_cli_args(),
        vec!["--preset", "coastal", "--brightness", "80", "--segments", "10", "--transition", "45"]
    );
    s.lat = Some("52.52".to_string());
    s.lon = Some("13.405".to_string());
    assert!(s.is_restartable());
    assert_eq!(
        s.build_cli_args()[8..].to_vec(),
        vec!["--lat", "52.52", "--lon", "13.405"]
    );
    s.use_location = false;
    assert!(!s.is_restartable());
    s.sunrise = Some("06:30".to_string());
    s.sunset = Some("20:15".to_string());
    s.preset = "simple".to_string();
    s.night_brightness = Some(20);
    assert!(s.is_restartable());
    assert_eq!(
        s.build_cli_args(),
        vec![
            "--preset", "simple", "--brightness", "80", "--segments", "10", "--transition", "45",
            "--sunrise", "06:30", "--sunset", "20:15", "--day-temp", "6500", "--night-temp",
            "3000", "--night-brightness", "20",
        ]
    );
}
