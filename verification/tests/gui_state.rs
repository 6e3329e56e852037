use govee::discovery::DeviceInfo;
use govee::gui::{
    AmbientConfig, ControlsConfig, GeneralConfig, Message, Page, SunlightConfig, TriState,
};
use govee::gui_state::{AudioSettings, Coordinate, Effect, GuiState, Launch, Look, ScreenSettings};
use govee::themes::ThemeDef;

fn device(ip: &str) -> DeviceInfo {
    DeviceInfo {
        ip: ip.to_string(),
        sku: "H6199".to_string(),
        device: String::new(),
        wifi_version: String::new(),
        ble_version: String::new(),
    }
}

fn state(last_page: &str, last_ip: Option<&str>) -> (GuiState, Vec<Effect>) {
    let general = GeneralConfig {
        last_device_ip: last_ip.map(|s| s.to_string()),
        last_page: last_page.to_string(),
    };
    let screen = ScreenSettings { fps: 10, brightness: 80, segments: 5, mirror: false };
    let audio = AudioSettings {
        mode: "energy".to_string(),
        palette: "fire".to_string(),
        brightness: 80,
        sensitivity: "1".to_string(),
        segments: 5,
        gradient: false,
        mirror: false,
    };
    let themes = vec![
        ThemeDef { name: "neon".to_string(), category: "static".to_string(), kind: Look::Solid((255, 0, 200)) },
        ThemeDef { name: "lava".to_string(), category: "nature".to_string(), kind: Look::Animated },
    ];
    GuiState::new(
        general,
        ControlsConfig::default(),
        screen,
        audio,
        AmbientConfig::default(),
        SunlightConfig::default(),
        themes,
    )
}

fn spawn_args(e: &Effect) -> Vec<String> {
    match e {
        Effect::Spawn { args, .. } => args.clone(),
        other => panic!("expected a spawn, got {other:?}"),
    }
}

fn sent(e: &Effect) -> String {
    match e {
        Effect::Send(Ok(c)) => c.message.clone(),
        other => panic!("expected a command, got {other:?}"),
    }
}

#[test]
fn start_up_scans_and_restores_the_page() {
    let (s, es) = state("audio", None);
    assert_eq!(s.page, Page::Audio);
    assert!(matches!(es.as_slice(), [Effect::Scan]));
    assert_eq!(s.theme_filter, "all");
    assert_eq!(s.color, (124, 58, 237));
    assert!(s.power && !s.running);
}

#[test]
fn scan_selects_the_last_used_device() {
    let (mut s, _) = state("controls", Some("10.0.0.3"));
    let es = s.update(Message::DevicesDiscovered(vec![device("10.0.0.2"), device("10.0.0.3")]));
    assert!(matches!(es.as_slice(), [Effect::Save]));
    assert_eq!(s.device.as_ref().unwrap().ip, "10.0.0.3");
    // A later scan keeps the selection.
    let es = s.update(Message::DevicesDiscovered(vec![device("10.0.0.2")]));
    assert!(es.is_empty());
    assert_eq!(s.device.as_ref().unwrap().ip, "10.0.0.3");
}

#[test]
fn scan_falls_back_to_the_first_device() {
    let (mut s, _) = state("controls", Some("10.9.9.9"));
    s.update(Message::DevicesDiscovered(vec![device("10.0.0.2"), device("10.0.0.3")]));
    assert_eq!(s.device.as_ref().unwrap().ip, "10.0.0.2");
    assert_eq!(s.general.last_device_ip.as_deref(), Some("10.0.0.2"));
    let es = s.update(Message::SelectDevice(1));
    assert!(matches!(es.as_slice(), [Effect::Save]));
    assert_eq!(s.device.as_ref().unwrap().ip, "10.0.0.3");
    assert!(s.update(Message::SelectDevice(7)).is_empty());
}

#[test]
fn controls_send_commands_to_the_device() {
    let (mut s, _) = state("controls", None);
    assert!(s.update(Message::SetBrightness(50)).is_empty());
    assert_eq!(s.brightness, 50);
    s.update(Message::DevicesDiscovered(vec![device("10.0.0.2")]));
    let es = s.update(Message::SetBrightness(40));
    assert_eq!(sent(&es[0]), r#"{"msg":{"cmd":"brightness","data":{"value":40}}}"#);
    let es = s.update(Message::TogglePower);
    assert!(!s.power);
    assert_eq!(sent(&es[0]), r#"{"msg":{"cmd":"turn","data":{"value":0}}}"#);
    let es = s.update(Message::SetColor(1, 2, 3));
    assert_eq!(s.controls.color, [1, 2, 3]);
    assert_eq!(
        sent(&es[0]),
        r#"{"msg":{"cmd":"colorwc","data":{"color":{"b":3,"g":2,"r":1},"colorTemInKelvin":0}}}"#
    );
}

#[test]
fn navigation_is_saved() {
    let (mut s, _) = state("controls", None);
    let es = s.update(Message::Navigate(Page::Sunlight));
    assert!(matches!(es.as_slice(), [Effect::Save]));
    assert_eq!(s.page, Page::Sunlight);
    assert_eq!(s.general.last_page, "sunlight");
}

#[test]
fn modes_start_and_restart_with_mirroring() {
    let (mut s, _) = state("controls", None);
    s.update(Message::DevicesDiscovered(vec![device("10.0.0.2")]));
    let es = s.update(Message::StartScreen);
    assert!(matches!(es[0], Effect::Stop));
    assert_eq!(
        spawn_args(&es[1]),
        vec!["screen", "--fps", "10", "--brightness", "80", "--segments", "5"]
    );
    s.launched(Launch::Mode("screen".to_string()));
    assert!(s.running);
    assert_eq!(s.active_mode.as_deref(), Some("screen"));
    s.tick(12);
    assert_eq!(s.elapsed_secs, 12);
    let es = s.update(Message::ToggleMirror(true));
    assert_eq!(es.len(), 3);
    assert!(matches!(es[0], Effect::Save) && matches!(es[1], Effect::Stop));
    assert_eq!(
        spawn_args(&es[2]),
        vec!["screen", "--fps", "10", "--brightness", "80", "--segments", "5", "--mirror"]
    );
    assert!(!s.running);
    let es = s.update(Message::StopMode);
    assert!(matches!(es.as_slice(), [Effect::Stop]));
}

#[test]
fn audio_settings_and_sensitivity() {
    let (mut s, _) = state("controls", None);
    s.update(Message::SetAudioSensitivity(15));
    assert_eq!(s.audio.sensitivity, "1.5");
    s.update(Message::SetAudioSensitivity(20));
    assert_eq!(s.audio.sensitivity, "2");
    s.update(Message::SetAudioSegments(99));
    assert_eq!(s.audio.segments, 10);
    s.update(Message::DevicesDiscovered(vec![device("10.0.0.2")]));
    let es = s.update(Message::StartAudio);
    assert_eq!(
        spawn_args(&es[1]),
        vec![
            "audio", "--mode", "energy", "--palette", "fire", "--brightness", "80", "--segments",
            "10", "--sensitivity", "2",
        ]
    );
}

#[test]
fn themes_apply_solid_or_animated() {
    let (mut s, _) = state("themes", None);
    s.update(Message::DevicesDiscovered(vec![device("10.0.0.2")]));
    let es = s.update(Message::ApplyTheme("neon".to_string()));
    assert!(matches!(es[0], Effect::Stop));
    assert_eq!(
        sent(&es[1]),
        r#"{"msg":{"cmd":"colorwc","data":{"color":{"b":200,"g":0,"r":255},"colorTemInKelvin":0}}}"#
    );
    assert_eq!(s.active_theme.as_deref(), Some("neon"));
    let es = s.update(Message::ApplyTheme("lava".to_string()));
    assert_eq!(spawn_args(&es[1]), vec!["theme", "lava"]);
    assert!(s.active_theme.is_none());
    let es = s.update(Message::ApplyTheme("unknown".to_string()));
    assert!(matches!(es.as_slice(), [Effect::Stop]));
}

#[test]
fn sunlight_needs_complete_settings() {
    let (mut s, _) = state("sunlight", None);
    s.update(Message::DevicesDiscovered(vec![device("10.0.0.2")]));
    let es = s.update(Message::StartSunlight);
    assert!(matches!(es.as_slice(), [Effect::FlagMissing { lat: true, lon: true }]));
    s.flag_coordinate(Coordinate::Latitude, None);
    assert_eq!(s.sunlight_errors.lat.as_deref(), Some("set latitude"));
    let es = s.update(Message::EditSunlightLat("52.5".to_string()));
    assert!(matches!(es.as_slice(), [Effect::Validate(Coordinate::Latitude)]));
    let es = s.coordinate_checked(Coordinate::Latitude, TriState::Valid("52.5".to_string()));
    assert!(matches!(es.as_slice(), [Effect::Save]));
    assert!(s.sunlight_errors.lat.is_none());
    s.coordinate_checked(Coordinate::Longitude, TriState::Valid("13.4".to_string()));
    let es = s.update(Message::StartSunlight);
    assert_eq!(
        spawn_args(&es[1]),
        vec![
            "sunlight", "--preset", "coastal", "--brightness", "80", "--segments", "10",
            "--transition", "45", "--lat", "52.5", "--lon", "13.4",
        ]
    );
}

#[test]
fn manual_times_are_checked_as_typed() {
    let (mut s, _) = state("sunlight", None);
    s.update(Message::SetSunlightUseLocation(false));
    let es = s.update(Message::StartSunlight);
    assert!(es.is_empty());
    assert_eq!(s.sunlight_errors.sunrise.as_deref(), Some("set sunrise HH:MM"));
    s.update(Message::EditSunlightSunset("25".to_string()));
    assert_eq!(s.sunlight_errors.sunset.as_deref(), Some("hour 00-23"));
    let es = s.update(Message::EditSunlightSunrise("06:45".to_string()));
    assert!(matches!(es.as_slice(), [Effect::Save]));
    assert_eq!(s.sunlight.sunrise.as_deref(), Some("06:45"));
    assert!(s.sunlight_errors.sunrise.is_none());
    s.update(Message::SubmitSunlightCoords);
    assert_eq!(s.sunlight_errors.sunset.as_deref(), Some("hour 00-23"));
}

#[test]
fn night_brightness_override() {
    let (mut s, _) = state("sunlight", None);
    s.update(Message::ToggleSunlightNightBrightnessOverride(true));
    assert_eq!(s.sunlight.night_brightness, Some(30));
    s.update(Message::SetSunlightNightBrightness(12));
    s.update(Message::ToggleSunlightNightBrightnessOverride(true));
    assert_eq!(s.sunlight.night_brightness, Some(12));
    s.update(Message::ToggleSunlightNightBrightnessOverride(false));
    assert_eq!(s.sunlight.night_brightness, None);
}
