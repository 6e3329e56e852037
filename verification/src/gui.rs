//! State and input handling of the graphical front end: pages, messages,
//! persisted settings with their defaults, and the per-keystroke validation
//! of the sunlight page's text inputs.

use vstd::prelude::*;
use vstd::string::StringSliceAdditionalSpecFns;

use crate::discovery::DeviceInfo;
use crate::text::{dec_text, decimal_string, str_eq};

verus! {

/// Hard cap on segment counts in the GUI: the device firmware stops
/// responding to larger DreamView packets.
pub const MAX_SEGMENTS: usize = 10;

/// Transient text buffers of the sunlight page's four text inputs.
#[derive(Debug, Clone, Default)]
pub struct SunlightInputs {
    pub lat: String,
    pub lon: String,
    pub sunrise: String,
    pub sunset: String,
}

/// Inline error messages of the sunlight text inputs; `None` when the input
/// is valid or still incomplete.
#[derive(Debug, Clone, Default)]
pub struct SunlightInputErrors {
    pub lat: Option<String>,
    pub lon: Option<String>,
    pub sunrise: Option<String>,
    pub sunset: Option<String>,
}

/// Navigation pages of the sidebar.
#[derive(Debug, Clone, Copy, PartialEq, Eq)]
pub enum Page {
    Controls,
    Themes,
    Screen,
    Audio,
    Ambient,
    Sunlight,
}

/// The name a page is saved under.
pub open spec fn page_name_spec(p: Page) -> Seq<char> {
    match p {
        Page::Controls => "controls"@,
        Page::Themes => "themes"@,
        Page::Screen => "screen"@,
        Page::Audio => "audio"@,
        Page::Ambient => "ambient"@,
        Page::Sunlight => "sunlight"@,
    }
}

/// The name a page is saved under in the settings.
pub fn page_name(p: Page) -> (s: &'static str)
    ensures
        s@ == page_name_spec(p),
{
    match p {
        Page::Controls => "controls",
        Page::Themes => "themes",
        Page::Screen => "screen",
        Page::Audio => "audio",
        Page::Ambient => "ambient",
        Page::Sunlight => "sunlight",
    }
}

/// The page saved under `name`; the controls page for any other name.
pub open spec fn page_named(name: Seq<char>) -> Page {
    if name == "themes"@ {
        Page::Themes
    } else if name == "screen"@ {
        Page::Screen
    } else if name == "audio"@ {
        Page::Audio
    } else if name == "ambient"@ {
        Page::Ambient
    } else if name == "sunlight"@ {
        Page::Sunlight
    } else {
        Page::Controls
    }
}

/// The page saved under `name` in the settings; the controls page for any
/// other name.
pub fn page_from_name(name: &str) -> (p: Page)
    ensures
        p == page_named(name@),
{
    if str_eq(name, "themes") {
        Page::Themes
    } else if str_eq(name, "screen") {
        Page::Screen
    } else if str_eq(name, "audio") {
        Page::Audio
    } else if str_eq(name, "ambient") {
        Page::Ambient
    } else if str_eq(name, "sunlight") {
        Page::Sunlight
    } else {
        Page::Controls
    }
}

/// Reading back the saved name of a page gives the page.
pub proof fn lemma_page_name_roundtrip(p: Page)
    ensures
        page_named(page_name_spec(p)) == p,
{
    reveal_strlit("themes");
    reveal_strlit("controls");
    reveal_strlit("screen");
    reveal_strlit("audio");
    reveal_strlit("ambient");
    reveal_strlit("sunlight");
    // The saved names differ in their first letter, or else in their length.
    assert("controls"@[0] != "themes"@[0] && "controls"@[0] != "screen"@[0]
        && "controls"@[0] != "audio"@[0] && "controls"@[0] != "ambient"@[0]
        && "controls"@[0] != "sunlight"@[0]);
    assert("themes"@[0] != "screen"@[0] && "themes"@[0] != "audio"@[0]
        && "themes"@[0] != "ambient"@[0] && "themes"@[0] != "sunlight"@[0]);
    assert("screen"@[1] != "sunlight"@[1] && "screen"@[0] != "audio"@[0]
        && "screen"@[0] != "ambient"@[0]);
    assert("audio"@.len() != "ambient"@.len() && "audio"@[0] != "sunlight"@[0]);
    assert("ambient"@[0] != "sunlight"@[0]);
}

/// All messages the application processes.
#[derive(Debug, Clone)]
pub enum Message {
    Navigate(Page),
    TogglePower,
    SetBrightness(u8),
    SetColor(u8, u8, u8),
    SetColorTemp(u16),
    DeviceCommandDone,
    DiscoveryTick,
    DevicesDiscovered(Vec<DeviceInfo>),
    SelectDevice(usize),
    ApplyTheme(String),
    StopMode,
    ThemeFilterChanged(String),
    Tick,
    SetScreenFps(u32),
    SetScreenBrightness(u8),
    SetScreenSegments(usize),
    StartScreen,
    SetAudioMode(String),
    SetAudioPalette(String),
    SetAudioBrightness(u8),
    SetAudioSensitivity(u8),
    SetAudioSegments(usize),
    ToggleAudioGradient(bool),
    StartAudio,
    SetAmbientBrightness(u8),
    ToggleAmbientDim(bool),
    StartAmbient,
    SetSunlightPreset(String),
    SetSunlightBrightness(u8),
    SetSunlightSegments(usize),
    SetSunlightTransition(u32),
    StartSunlight,
    SetSunlightUseLocation(bool),
    EditSunlightLat(String),
    EditSunlightLon(String),
    EditSunlightSunrise(String),
    EditSunlightSunset(String),
    SubmitSunlightCoords,
    SetSunlightDayTemp(u16),
    SetSunlightNightTemp(u16),
    ToggleSunlightNightBrightnessOverride(bool),
    SetSunlightNightBrightness(u8),
    ToggleMirror(bool),
    SaveConfig,
    ApplyScreenSettings,
    ApplyAudioSettings,
    ApplyAmbientSettings,
    ApplySunlightSettings,
}

/// General settings: last device and last page.
#[derive(Debug, Clone)]
pub struct GeneralConfig {
    pub last_device_ip: Option<String>,
    pub last_page: String,
}

impl Default for GeneralConfig {
    fn default() -> (c: Self)
        ensures
            c.last_device_ip is None,
            c.last_page@ == "controls"@,
    {
        GeneralConfig { last_device_ip: None, last_page: String::from_str("controls") }
    }
}

/// Settings of the controls page.
#[derive(Debug, Clone)]
pub struct ControlsConfig {
    pub brightness: u8,
    pub color: [u8; 3],
    pub color_temp: u16,
}

impl Default for ControlsConfig {
    fn default() -> (c: Self)
        ensures
            c.brightness == 80,
            c.color@ == seq![124u8, 58u8, 237u8],
            c.color_temp == 4000,
    {
        let c = ControlsConfig { brightness: 80, color: [124, 58, 237], color_temp: 4000 };
        assert(c.color@ =~= seq![124u8, 58u8, 237u8]);
        c
    }
}

/// Settings of the ambient page.
#[derive(Debug, Clone)]
pub struct AmbientConfig {
    pub color: String,
    pub brightness: u8,
    pub dim: bool,
}

impl Default for AmbientConfig {
    fn default() -> (c: Self)
        ensures
            c.color@ == "primary"@,
            c.brightness == 80,
            !c.dim,
    {
        AmbientConfig { color: String::from_str("primary"), brightness: 80, dim: false }
    }
}

/// Settings of the sunlight page. The coordinates are kept as the decimal
/// text they are handed to the command line as.
#[derive(Debug, Clone)]
pub struct SunlightConfig {
    pub preset: String,
    pub brightness: u8,
    pub segments: usize,
    pub transition: u32,
    pub lat: Option<String>,
    pub lon: Option<String>,
    pub sunrise: Option<String>,
    pub sunset: Option<String>,
    pub day_temp: u16,
    pub night_temp: u16,
    pub night_brightness: Option<u8>,
    pub use_location: bool,
}

/// Whether a settings file without a `use_location` entry uses the location.
pub fn default_use_location() -> (b: bool)
    ensures
        b,
{
    true
}

impl Default for SunlightConfig {
    fn default() -> (c: Self)
        ensures
            c.preset@ == "coastal"@,
            c.brightness == 80,
            c.segments == 10,
            c.transition == 45,
            c.lat is None && c.lon is None,
            c.sunrise is None && c.sunset is None,
            c.day_temp == 6500,
            c.night_temp == 3000,
            c.night_brightness is None,
            c.use_location,
    {
        SunlightConfig {
            preset: String::from_str("coastal"),
            brightness: 80,
            segments: 10,
            transition: 45,
            lat: None,
            lon: None,
            sunrise: None,
            sunset: None,
            day_temp: 6500,
            night_temp: 3000,
            night_brightness: None,
            use_location: default_use_location(),
        }
    }
}

/// The views of a list of strings.
pub open spec fn texts(v: Seq<String>) -> Seq<Seq<char>> {
    v.map_values(|s: String| s@)
}

/// The location or manual-time arguments: coordinates when the location is
/// used and both are set, sunrise and sunset when it is not and both are set.
pub open spec fn schedule_args(c: SunlightConfig) -> Seq<Seq<char>> {
    if c.use_location {
        match (c.lat, c.lon) {
            (Some(lat), Some(lon)) => seq!["--lat"@, lat@, "--lon"@, lon@],
            _ => Seq::empty(),
        }
    } else {
        match (c.sunrise, c.sunset) {
            (Some(rise), Some(set)) => seq!["--sunrise"@, rise@, "--sunset"@, set@],
            _ => Seq::empty(),
        }
    }
}

/// The colour-temperature arguments, given only for the `simple` preset.
pub open spec fn simple_args(c: SunlightConfig) -> Seq<Seq<char>> {
    if c.preset@ == "simple"@ {
        seq![
            "--day-temp"@,
            dec_text(c.day_temp as nat),
            "--night-temp"@,
            dec_text(c.night_temp as nat),
        ] + match c.night_brightness {
            Some(nb) => seq!["--night-brightness"@, dec_text(nb as nat)],
            None => Seq::empty(),
        }
    } else {
        Seq::empty()
    }
}

/// All command-line arguments after the `sunlight` subcommand.
pub open spec fn sunlight_args(c: SunlightConfig) -> Seq<Seq<char>> {
    seq![
        "--preset"@,
        c.preset@,
        "--brightness"@,
        dec_text(c.brightness as nat),
        "--segments"@,
        dec_text(c.segments as nat),
        "--transition"@,
        dec_text(c.transition as nat),
    ] + schedule_args(c) + simple_args(c)
}

/// Pushes one argument.
fn push_arg(args: &mut Vec<String>, a: String)
    ensures
        final(args)@ == old(args)@.push(a),
        texts(final(args)@) == texts(old(args)@).push(a@),
{
    args.push(a);
    assert(texts(final(args)@) =~= texts(old(args)@).push(a@));
}

impl SunlightConfig {
    /// All command-line arguments after the `sunlight` subcommand; the
    /// caller adds the subcommand, the device address and global flags.
    pub fn build_cli_args(&self) -> (args: Vec<String>)
        ensures
            texts(args@) == sunlight_args(*self),
    {
        let mut args: Vec<String> = Vec::new();
        assert(texts(args@) =~= Seq::<Seq<char>>::empty());
        push_arg(&mut args, String::from_str("--preset"));
        push_arg(&mut args, self.preset.clone());
        push_arg(&mut args, String::from_str("--brightness"));
        push_arg(&mut args, decimal_string(self.brightness as u64));
        push_arg(&mut args, String::from_str("--segments"));
        push_arg(&mut args, decimal_string(self.segments as u64));
        push_arg(&mut args, String::from_str("--transition"));
        push_arg(&mut args, decimal_string(self.transition as u64));
        let ghost base = texts(args@);
        if self.use_location {
            match (&self.lat, &self.lon) {
                (Some(lat), Some(lon)) => {
                    push_arg(&mut args, String::from_str("--lat"));
                    push_arg(&mut args, lat.clone());
                    push_arg(&mut args, String::from_str("--lon"));
                    push_arg(&mut args, lon.clone());
                },
                _ => {},
            }
        } else {
            match (&self.sunrise, &self.sunset) {
                (Some(rise), Some(set)) => {
                    push_arg(&mut args, String::from_str("--sunrise"));
                    push_arg(&mut args, rise.clone());
                    push_arg(&mut args, String::from_str("--sunset"));
                    push_arg(&mut args, set.clone());
                },
                _ => {},
            }
        }
        assert(texts(args@) =~= base + schedule_args(*self));
        let ghost mid = texts(args@);
        if str_eq(self.preset.as_str(), "simple") {
            push_arg(&mut args, String::from_str("--day-temp"));
            push_arg(&mut args, decimal_string(self.day_temp as u64));
            push_arg(&mut args, String::from_str("--night-temp"));
            push_arg(&mut args, decimal_string(self.night_temp as u64));
            if let Some(nb) = self.night_brightness {
                push_arg(&mut args, String::from_str("--night-brightness"));
                push_arg(&mut args, decimal_string(nb as u64));
            }
        }
        assert(texts(args@) =~= mid + simple_args(*self));
        assert(texts(args@) =~= sunlight_args(*self));
        args
    }

    /// Whether the settings are complete enough to start the sunlight mode:
    /// both coordinates when the location is used, else both times.
    pub fn is_restartable(&self) -> (ok: bool)
        ensures
            ok == if self.use_location {
                self.lat is Some && self.lon is Some
            } else {
                self.sunrise is Some && self.sunset is Some
            },
    {
        if self.use_location {
            self.lat.is_some() && self.lon.is_some()
        } else {
            self.sunrise.is_some() && self.sunset.is_some()
        }
    }
}

/// Clamps a segment count requested in the GUI to the firmware limit.
pub fn clamp_segments(v: usize) -> (n: usize)
    ensures
        n == if v < MAX_SEGMENTS { v } else { MAX_SEGMENTS },
{
    if v < MAX_SEGMENTS { v } else { MAX_SEGMENTS }
}

/// Clamps a segment count loaded from the settings file to `1..=10`.
pub fn clamp_loaded_segments(v: usize) -> (n: usize)
    ensures
        n == if v < 1 { 1 } else if v > MAX_SEGMENTS { MAX_SEGMENTS } else { v },
{
    if v < 1 { 1 } else if v > MAX_SEGMENTS { MAX_SEGMENTS } else { v }
}

// ── Per-keystroke validation ────────────────────────────────────────────────

/// Result of validating a text input on every keystroke.
pub enum TriState<T> {
    /// Parses cleanly and is in range: save it and clear the error.
    Valid(T),
    /// A prefix of something that could still become valid: clear the error.
    Incomplete,
    /// Cannot become valid with more characters: show the error.
    Invalid(String),
}

/// Commits a validation result: a valid value is stored and the error
/// cleared; an incomplete one clears the error; an invalid one sets it.
/// Returns whether the value was valid (and should be saved).
pub fn apply_tristate<T>(result: TriState<T>, slot: &mut Option<T>, err: &mut Option<String>) -> (saved: bool)
    ensures
        match result {
            TriState::Valid(v) => saved && *final(slot) == Some(v) && *final(err) == None::<String>,
            TriState::Incomplete => !saved && *final(slot) == *old(slot) && *final(err) == None::<String>,
            TriState::Invalid(e) => !saved && *final(slot) == *old(slot) && *final(err) == Some(e),
        },
{
    match result {
        TriState::Valid(v) => {
            *slot = Some(v);
            *err = None;
            true
        },
        TriState::Incomplete => {
            *err = None;
            false
        },
        TriState::Invalid(e) => {
            *err = Some(e);
            false
        },
    }
}

/// Verdict on `HH:MM` text, without the text itself.
pub enum TimeVerdict {
    Valid,
    Incomplete,
    Invalid(Seq<char>),
}

/// An ASCII digit byte.
pub open spec fn digit_byte(c: u8) -> bool {
    48 <= c <= 57
}

/// Value of two digit bytes.
pub open spec fn two_digits(a: u8, b: u8) -> int {
    (a - 48) * 10 + (b - 48)
}

/// The verdict on the UTF-8 bytes of a time input: a strict prefix of some
/// `HH:MM` from 00:00 to 23:59 is incomplete, a full one is valid, anything
/// else is invalid with a message saying why.
pub open spec fn time_verdict(b: Seq<u8>) -> TimeVerdict {
    let expected = TimeVerdict::Invalid("expected HH:MM"@);
    if b.len() == 0 {
        TimeVerdict::Incomplete
    } else if b.len() == 1 {
        if 48 <= b[0] <= 50 { TimeVerdict::Incomplete } else { expected }
    } else if b.len() == 2 || b.len() == 3 {
        if digit_byte(b[0]) && digit_byte(b[1]) && (b.len() == 2 || b[2] == 58) {
            if two_digits(b[0], b[1]) <= 23 {
                TimeVerdict::Incomplete
            } else {
                TimeVerdict::Invalid("hour 00-23"@)
            }
        } else {
            expected
        }
    } else if b.len() == 4 {
        if digit_byte(b[0]) && digit_byte(b[1]) && b[2] == 58 && digit_byte(b[3]) {
            if two_digits(b[0], b[1]) <= 23 && b[3] - 48 <= 5 {
                TimeVerdict::Incomplete
            } else {
                TimeVerdict::Invalid("hour 00-23, minute 00-59"@)
            }
        } else {
            expected
        }
    } else if b.len() == 5 {
        if digit_byte(b[0]) && digit_byte(b[1]) && b[2] == 58 && digit_byte(b[3]) && digit_byte(
            b[4],
        ) {
            if two_digits(b[0], b[1]) <= 23 && two_digits(b[3], b[4]) <= 59 {
                TimeVerdict::Valid
            } else {
                TimeVerdict::Invalid("hour 00-23, minute 00-59"@)
            }
        } else {
            expected
        }
    } else {
        expected
    }
}

fn digit_exec(c: u8) -> (d: bool)
    ensures
        d == digit_byte(c),
{
    48 <= c && c <= 57
}

fn invalid_time(msg: &str) -> (t: TriState<String>)
    ensures
        t matches TriState::Invalid(e) && e@ == msg@,
{
    TriState::Invalid(String::from_str(msg))
}

/// Validates an `HH:MM` time input keystroke by keystroke: valid times are
/// kept as typed, strict prefixes of a valid time are incomplete, anything
/// else is invalid with a message.
pub fn validate_time(s: &str) -> (res: TriState<String>)
    ensures
        match time_verdict(s.spec_bytes()) {
            TimeVerdict::Valid => res matches TriState::Valid(v) && v@ == s@,
            TimeVerdict::Incomplete => res is Incomplete,
            TimeVerdict::Invalid(m) => res matches TriState::Invalid(e) && e@ == m,
        },
{
    let bytes = s.as_bytes();
    let n = bytes.len();
    if n == 0 {
        TriState::Incomplete
    } else if n == 1 {
        if 48 <= bytes[0] && bytes[0] <= 50 {
            TriState::Incomplete
        } else {
            invalid_time("expected HH:MM")
        }
    } else if n == 2 || n == 3 {
        if digit_exec(bytes[0]) && digit_exec(bytes[1]) && (n == 2 || bytes[2] == 58) {
            let h = (bytes[0] - 48) * 10 + (bytes[1] - 48);
            if h <= 23 {
                TriState::Incomplete
            } else {
                invalid_time("hour 00-23")
            }
        } else {
            invalid_time("expected HH:MM")
        }
    } else if n == 4 {
        if digit_exec(bytes[0]) && digit_exec(bytes[1]) && bytes[2] == 58 && digit_exec(bytes[3]) {
            let h = (bytes[0] - 48) * 10 + (bytes[1] - 48);
            let m_hi = bytes[3] - 48;
            if h <= 23 && m_hi <= 5 {
                TriState::Incomplete
            } else {
                invalid_time("hour 00-23, minute 00-59")
            }
        } else {
            invalid_time("expected HH:MM")
        }
    } else if n == 5 {
        if digit_exec(bytes[0]) && digit_exec(bytes[1]) && bytes[2] == 58 && digit_exec(bytes[3])
            && digit_exec(bytes[4]) {
            let h = (bytes[0] - 48) * 10 + (bytes[1] - 48);
            let m = (bytes[3] - 48) * 10 + (bytes[4] - 48);
            if h <= 23 && m <= 59 {
                TriState::Valid(String::from_str(s))
            } else {
                invalid_time("hour 00-23, minute 00-59")
            }
        } else {
            invalid_time("expected HH:MM")
        }
    } else {
        invalid_time("expected HH:MM")
    }
}

/// Bytes of a valid time `HH:MM`, 00:00 to 23:59.
pub open spec fn valid_time_bytes(v: Seq<u8>) -> bool {
    &&& v.len() == 5
    &&& digit_byte(v[0]) && digit_byte(v[1]) && v[2] == 58 && digit_byte(v[3]) && digit_byte(v[4])
    &&& two_digits(v[0], v[1]) <= 23
    &&& two_digits(v[3], v[4]) <= 59
}

/// An input is incomplete exactly when it is a strict prefix of a valid time,
/// and valid exactly when it is a valid time.
pub proof fn lemma_time_verdict_prefixes(b: Seq<u8>)
    ensures
        (time_verdict(b) is Incomplete) <==> (exists|v: Seq<u8>|
            valid_time_bytes(v) && b.len() < 5 && #[trigger] v.subrange(0, b.len() as int) == b),
        (time_verdict(b) is Valid) <==> valid_time_bytes(b),
{
    if time_verdict(b) is Incomplete {
        let z = 48u8;
        let v: Seq<u8> = if b.len() == 0 {
            seq![z, z, 58u8, z, z]
        } else if b.len() == 1 {
            seq![b[0], z, 58u8, z, z]
        } else if b.len() == 2 {
            seq![b[0], b[1], 58u8, z, z]
        } else if b.len() == 3 {
            seq![b[0], b[1], b[2], z, z]
        } else {
            seq![b[0], b[1], b[2], b[3], z]
        };
        assert(v.subrange(0, b.len() as int) =~= b);
        assert(valid_time_bytes(v));
    }
    if exists|v: Seq<u8>|
        valid_time_bytes(v) && b.len() < 5 && #[trigger] v.subrange(0, b.len() as int) == b {
        let v = choose|v: Seq<u8>|
            valid_time_bytes(v) && b.len() < 5 && #[trigger] v.subrange(0, b.len() as int) == b;
        let k = b.len() as int;
        assert forall|i: int| 0 <= i < k implies b[i] == v[i] by {
            assert(v.subrange(0, k)[i] == v[i]);
        }
        if k == 4 {
            assert(v[3] - 48 <= 5) by {
                assert(two_digits(v[3], v[4]) <= 59);
            }
        }
    }
}

} // verus!
