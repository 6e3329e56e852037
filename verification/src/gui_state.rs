//! The decisions of the graphical front end: how each message changes the
//! application state, and what the shell must do about it (save the
//! settings, send a command, scan, stop or start the command-line process
//! that runs a continuous mode).
//!
//! The shell owns the window, the settings file and the child process; it
//! hands every message to [`GuiState::update`], performs the effects in
//! order, and reports a started process back with [`GuiState::launched`].
//! Coordinates are numbers in the settings; checking their text takes
//! floating point, which the shell does when asked by an effect.

use vstd::prelude::*;

use crate::address::Octets;
use crate::discovery::DeviceInfo;
use crate::dreamview::Rgb;
use crate::gui::{
    apply_tristate, clamp_segments, page_name, page_name_spec, sunlight_args, texts,
    validate_time, time_verdict, AmbientConfig, ControlsConfig, GeneralConfig, Message, Page,
    SunlightConfig, SunlightInputErrors, SunlightInputs, TimeVerdict, TriState, MAX_SEGMENTS,
};
use crate::protocol::{
    addressed, brightness_json, colorwc_json, send_brightness, send_color, send_color_temp,
    send_turn, turn_json, Command, CommandError,
};
use crate::text::{dec_text, decimal_string, str_eq};
use crate::themes::{first_named, ThemeDef};

verus! {

// ── State ───────────────────────────────────────────────────────────────────

/// What applying a theme needs to know of it.
#[derive(Debug, Clone, Copy, PartialEq, Eq)]
pub enum Look {
    /// A single colour, set once.
    Solid(Rgb),
    /// An animation, run by a command-line process.
    Animated,
}

/// Settings of the screen page that the decisions read.
#[derive(Debug)]
pub struct ScreenSettings {
    pub fps: u32,
    pub brightness: u8,
    pub segments: usize,
    pub mirror: bool,
}

/// Settings of the audio page that the decisions read; the sensitivity is
/// kept as the decimal text it is passed on as.
#[derive(Debug)]
pub struct AudioSettings {
    pub mode: String,
    pub palette: String,
    pub brightness: u8,
    pub sensitivity: String,
    pub segments: usize,
    pub gradient: bool,
    pub mirror: bool,
}

/// The application state.
pub struct GuiState {
    pub page: Page,
    pub device: Option<DeviceInfo>,
    pub devices: Vec<DeviceInfo>,
    pub general: GeneralConfig,
    pub controls: ControlsConfig,
    pub screen: ScreenSettings,
    pub audio: AudioSettings,
    pub ambient: AmbientConfig,
    pub sunlight: SunlightConfig,
    pub power: bool,
    pub brightness: u8,
    pub color: Rgb,
    pub color_temp: u16,
    pub themes: Vec<ThemeDef<Look>>,
    pub active_theme: Option<String>,
    /// A command-line process is running.
    pub running: bool,
    pub theme_filter: String,
    pub active_mode: Option<String>,
    pub elapsed_secs: u64,
    pub mirror: bool,
    pub sunlight_inputs: SunlightInputs,
    pub sunlight_errors: SunlightInputErrors,
}

/// One of the two coordinate inputs.
#[derive(Debug, Clone, Copy, PartialEq, Eq)]
pub enum Coordinate {
    Latitude,
    Longitude,
}

/// What a started process runs.
#[derive(Debug)]
pub enum Launch {
    /// A continuous mode: screen, audio, ambient or sunlight.
    Mode(String),
    /// An animated theme.
    Theme(String),
}

/// What the shell must do, in order.
#[derive(Debug)]
pub enum Effect {
    /// Write the settings file.
    Save,
    /// Send a command to the device (its failure is ignored).
    Send(Result<Command, CommandError>),
    /// Scan for devices and report them with `DevicesDiscovered`.
    Scan,
    /// Stop the running process.
    Stop,
    /// Start the command-line program with these arguments for the device
    /// at `ip`; report success with [`GuiState::launched`].
    Spawn { args: Vec<String>, ip: String, launch: Launch },
    /// Check the text of a coordinate input and report the verdict with
    /// [`GuiState::coordinate_checked`].
    Validate(Coordinate),
    /// Flag the coordinate inputs whose values are missing (latitude,
    /// longitude): the error of the input's text if it is invalid, else a
    /// request to set it.
    FlagMissing { lat: bool, lon: bool },
}

/// An effect as plain values.
pub enum Step {
    Save,
    Send(Result<(Octets, Seq<char>), CommandError>),
    Scan,
    Stop,
    /// Arguments, device address, and whether a theme (else a mode) of this
    /// name runs.
    Spawn(Seq<Seq<char>>, Seq<char>, bool, Seq<char>),
    Validate(Coordinate),
    FlagMissing(bool, bool),
}

/// A command result as plain values.
pub open spec fn command_view(r: Result<Command, CommandError>) -> Result<(Octets, Seq<char>), CommandError> {
    match r {
        Ok(c) => Ok((c.to, c.message@)),
        Err(e) => Err(e),
    }
}

/// An effect as plain values.
pub open spec fn step_of(e: Effect) -> Step {
    match e {
        Effect::Save => Step::Save,
        Effect::Send(r) => Step::Send(command_view(r)),
        Effect::Scan => Step::Scan,
        Effect::Stop => Step::Stop,
        Effect::Spawn { args, ip, launch } => match launch {
            Launch::Mode(m) => Step::Spawn(texts(args@), ip@, false, m@),
            Launch::Theme(t) => Step::Spawn(texts(args@), ip@, true, t@),
        },
        Effect::Validate(c) => Step::Validate(c),
        Effect::FlagMissing { lat, lon } => Step::FlagMissing(lat, lon),
    }
}

/// Effects as plain values.
pub open spec fn steps(es: Seq<Effect>) -> Seq<Step> {
    es.map_values(|e: Effect| step_of(e))
}

/// Sending `msg` to the device at `ip`, as a step: the command, or why the
/// address was refused.
pub open spec fn sent(ip: Seq<char>, msg: Seq<char>) -> Step {
    Step::Send(
        match crate::address::parse_ipv4(ip) {
            None => Err(CommandError::Addr(crate::address::AddrError::InvalidIp)),
            Some(o) => if crate::address::is_unicast(o) {
                Ok((o, msg))
            } else {
                Err(CommandError::Addr(crate::address::AddrError::NotUnicast))
            },
        },
    )
}

/// The command `msg` for the selected device, if one is selected.
pub open spec fn send_step(s: GuiState, msg: Seq<char>) -> Seq<Step> {
    match s.device {
        Some(d) => seq![sent(d.ip@, msg)],
        None => Seq::empty(),
    }
}

// ── Processes ───────────────────────────────────────────────────────────────

/// The state once the running process is stopped.
pub open spec fn stopped(s: GuiState) -> GuiState {
    GuiState { running: false, active_theme: None, active_mode: None, elapsed_secs: 0, ..s }
}

/// The arguments that start continuous mode `mode`, before the mirror flag.
pub open spec fn mode_args(s: GuiState, mode: Seq<char>) -> Seq<Seq<char>> {
    if mode == "screen"@ {
        seq![
            "screen"@,
            "--fps"@,
            dec_text(s.screen.fps as nat),
            "--brightness"@,
            dec_text(s.screen.brightness as nat),
            "--segments"@,
            dec_text(s.screen.segments as nat),
        ]
    } else if mode == "audio"@ {
        seq![
            "audio"@,
            "--mode"@,
            s.audio.mode@,
            "--palette"@,
            s.audio.palette@,
            "--brightness"@,
            dec_text(s.audio.brightness as nat),
            "--segments"@,
            dec_text(s.audio.segments as nat),
            "--sensitivity"@,
            s.audio.sensitivity@,
        ] + (if s.audio.gradient { seq!["--gradient"@] } else { Seq::empty() })
    } else if mode == "ambient"@ {
        seq!["ambient"@, "--brightness"@, dec_text(s.ambient.brightness as nat)] + (if s.ambient.dim {
            seq!["--dim"@]
        } else {
            Seq::empty()
        })
    } else {
        seq!["sunlight"@] + sunlight_args(s.sunlight)
    }
}

/// The arguments with the mirror flag when mirroring is on.
pub open spec fn with_mirror(s: GuiState, args: Seq<Seq<char>>) -> Seq<Seq<char>> {
    if s.mirror {
        args.push("--mirror"@)
    } else {
        args
    }
}

/// Starting a process: stop the running one, then start the new one when a
/// device is selected.
pub open spec fn start_steps(s: GuiState, args: Seq<Seq<char>>, theme: bool, name: Seq<char>) -> Seq<Step> {
    seq![Step::Stop] + match s.device {
        Some(d) => seq![Step::Spawn(with_mirror(s, args), d.ip@, theme, name)],
        None => Seq::empty(),
    }
}

/// A continuous mode is known and may be restarted with the current
/// settings (the sunlight mode only when they are complete).
pub open spec fn restartable_mode(s: GuiState, mode: Seq<char>) -> bool {
    ||| mode == "screen"@
    ||| mode == "audio"@
    ||| mode == "ambient"@
    ||| (mode == "sunlight"@ && if s.sunlight.use_location {
        s.sunlight.lat is Some && s.sunlight.lon is Some
    } else {
        s.sunlight.sunrise is Some && s.sunlight.sunset is Some
    })
}

/// Whether `mode` is running and is restarted.
pub open spec fn restarts(s: GuiState, mode: Seq<char>) -> bool {
    &&& s.active_mode matches Some(m) && m@ == mode
    &&& restartable_mode(s, mode)
}

/// The state after restarting `mode` if it runs.
pub open spec fn restart_state(s: GuiState, mode: Seq<char>) -> GuiState {
    if restarts(s, mode) {
        stopped(s)
    } else {
        s
    }
}

/// The effects of restarting `mode` if it runs.
pub open spec fn restart_steps(s: GuiState, mode: Seq<char>) -> Seq<Step> {
    if restarts(s, mode) {
        start_steps(s, mode_args(s, mode), false, mode)
    } else {
        Seq::empty()
    }
}

/// Pushes one effect.
fn push_effect(es: &mut Vec<Effect>, e: Effect)
    ensures
        steps(final(es)@) == steps(old(es)@).push(step_of(e)),
{
    let ghost st = step_of(e);
    es.push(e);
    assert(steps(final(es)@) =~= steps(old(es)@).push(st));
}

/// Pushes one argument.
fn push_arg(args: &mut Vec<String>, a: String)
    ensures
        texts(final(args)@) == texts(old(args)@).push(a@),
{
    args.push(a);
    assert(texts(final(args)@) =~= texts(old(args)@).push(a@));
}

impl GuiState {
    /// Stops the running process.
    fn stop(&mut self, es: &mut Vec<Effect>)
        ensures
            *final(self) == stopped(*old(self)),
            steps(final(es)@) == steps(old(es)@).push(Step::Stop),
    {
        push_effect(es, Effect::Stop);
        self.running = false;
        self.active_theme = None;
        self.active_mode = None;
        self.elapsed_secs = 0;
    }

    /// Stops the running process and starts one with `args`, for the
    /// selected device.
    fn start(&mut self, es: &mut Vec<Effect>, args: Vec<String>, launch: Launch)
        ensures
            *final(self) == stopped(*old(self)),
            steps(final(es)@) == steps(old(es)@) + match launch {
                Launch::Mode(m) => start_steps(*old(self), texts(args@), false, m@),
                Launch::Theme(t) => start_steps(*old(self), texts(args@), true, t@),
            },
    {
        let ghost s0 = *self;
        let ghost e0 = steps(es@);
        let ghost a0 = texts(args@);
        let ghost l0 = launch;
        self.stop(es);
        match &self.device {
            Some(d) => {
                let mut args = args;
                if self.mirror {
                    push_arg(&mut args, String::from_str("--mirror"));
                }
                assert(texts(args@) == with_mirror(s0, a0));
                let ip = d.ip.clone();
                push_effect(es, Effect::Spawn { args, ip, launch });
            },
            None => {},
        }
        assert(steps(es@) =~= e0 + match l0 {
            Launch::Mode(m) => start_steps(s0, a0, false, m@),
            Launch::Theme(t) => start_steps(s0, a0, true, t@),
        });
    }

    /// Records that the process of `launch` started: it runs, and its mode
    /// or theme is the active one, from zero seconds.
    pub fn launched(&mut self, launch: Launch)
        ensures
            *final(self) == (match launch {
                Launch::Mode(m) => GuiState {
                    running: true,
                    active_mode: Some(m),
                    elapsed_secs: 0,
                    ..*old(self)
                },
                Launch::Theme(t) => GuiState {
                    running: true,
                    active_theme: Some(t),
                    elapsed_secs: 0,
                    ..*old(self)
                },
            }),
    {
        self.running = true;
        self.elapsed_secs = 0;
        match launch {
            Launch::Mode(m) => {
                self.active_mode = Some(m);
            },
            Launch::Theme(t) => {
                self.active_theme = Some(t);
            },
        }
    }

    /// Records how long the process has been running.
    pub fn tick(&mut self, elapsed_secs: u64)
        ensures
            *final(self) == (if old(self).running {
                GuiState { elapsed_secs, ..*old(self) }
            } else {
                *old(self)
            }),
    {
        if self.running {
            self.elapsed_secs = elapsed_secs;
        }
    }

    /// The arguments that start continuous mode `mode`.
    fn mode_arguments(&self, mode: &str) -> (args: Vec<String>)
        ensures
            texts(args@) == mode_args(*self, mode@),
    {
        let mut args: Vec<String> = Vec::new();
        assert(texts(args@) =~= Seq::<Seq<char>>::empty());
        if str_eq(mode, "screen") {
            push_arg(&mut args, String::from_str("screen"));
            push_arg(&mut args, String::from_str("--fps"));
            push_arg(&mut args, decimal_string(self.screen.fps as u64));
            push_arg(&mut args, String::from_str("--brightness"));
            push_arg(&mut args, decimal_string(self.screen.brightness as u64));
            push_arg(&mut args, String::from_str("--segments"));
            push_arg(&mut args, decimal_string(self.screen.segments as u64));
        } else if str_eq(mode, "audio") {
            push_arg(&mut args, String::from_str("audio"));
            push_arg(&mut args, String::from_str("--mode"));
            push_arg(&mut args, self.audio.mode.clone());
            push_arg(&mut args, String::from_str("--palette"));
            push_arg(&mut args, self.audio.palette.clone());
            push_arg(&mut args, String::from_str("--brightness"));
            push_arg(&mut args, decimal_string(self.audio.brightness as u64));
            push_arg(&mut args, String::from_str("--segments"));
            push_arg(&mut args, decimal_string(self.audio.segments as u64));
            push_arg(&mut args, String::from_str("--sensitivity"));
            push_arg(&mut args, self.audio.sensitivity.clone());
            if self.audio.gradient {
                push_arg(&mut args, String::from_str("--gradient"));
            }
        } else if str_eq(mode, "ambient") {
            push_arg(&mut args, String::from_str("ambient"));
            push_arg(&mut args, String::from_str("--brightness"));
            push_arg(&mut args, decimal_string(self.ambient.brightness as u64));
            if self.ambient.dim {
                push_arg(&mut args, String::from_str("--dim"));
            }
        } else {
            push_arg(&mut args, String::from_str("sunlight"));
            let rest = self.sunlight.build_cli_args();
            let mut i: usize = 0;
            let ghost head = texts(args@);
            assert(texts(rest@).subrange(0, 0) =~= Seq::<Seq<char>>::empty());
            while i < rest.len()
                invariant
                    i <= rest@.len(),
                    texts(args@) == head + texts(rest@).subrange(0, i as int),
                decreases rest@.len() - i,
            {
                push_arg(&mut args, rest[i].clone());
                assert(texts(rest@).subrange(0, i as int + 1) =~= texts(rest@).subrange(
                    0,
                    i as int,
                ).push(rest@[i as int]@));
                i = i + 1;
            }
            assert(texts(rest@).subrange(0, rest@.len() as int) =~= texts(rest@));
        }
        assert(texts(args@) =~= mode_args(*self, mode@));
        args
    }

    /// Restarts continuous mode `mode` with the current settings if it is
    /// the one running (the sunlight mode only when its settings are
    /// complete).
    fn restart_if_active(&mut self, es: &mut Vec<Effect>, mode: &str)
        ensures
            *final(self) == restart_state(*old(self), mode@),
            steps(final(es)@) == steps(old(es)@) + restart_steps(*old(self), mode@),
    {
        let active = match &self.active_mode {
            Some(m) => str_eq(m.as_str(), mode),
            None => false,
        };
        let known = str_eq(mode, "screen") || str_eq(mode, "audio") || str_eq(mode, "ambient")
            || (str_eq(mode, "sunlight") && self.sunlight.is_restartable());
        if !(active && known) {
            assert(steps(es@) =~= steps(es@) + restart_steps(*self, mode@));
            return;
        }
        let args = self.mode_arguments(mode);
        self.start(es, args, Launch::Mode(mode.to_string()));
    }
}

// ── Messages ────────────────────────────────────────────────────────────────

/// Decimal text of `v / 10`, as a number of tenths is shown: `1.5`, `0.3`,
/// and `2` for a whole number.
pub open spec fn tenths_text(v: u8) -> Seq<char> {
    if v % 10 == 0 {
        dec_text((v / 10) as nat)
    } else {
        dec_text((v / 10) as nat) + seq!['.'] + dec_text((v % 10) as nat)
    }
}

fn tenths_string(v: u8) -> (s: String)
    ensures
        s@ == tenths_text(v),
{
    let mut s = decimal_string((v / 10) as u64);
    if v % 10 != 0 {
        s.push('.');
        crate::text::push_decimal(&mut s, (v % 10) as u64);
    }
    assert(s@ =~= tenths_text(v));
    s
}

/// The error of a missing time: the input's own error if it is invalid,
/// else the request `missing`.
pub open spec fn time_flag(input: Seq<char>, missing: Seq<char>) -> Seq<char> {
    match time_verdict(vstd::utf8::encode_utf8(input)) {
        TimeVerdict::Invalid(m) => m,
        _ => missing,
    }
}

/// The inputs of a missing time are flagged, or, for coordinates, the
/// shell is asked to flag them.
pub open spec fn populated(s: GuiState, t: GuiState, st: Seq<Step>) -> bool {
    if s.sunlight.use_location {
        t == s && st == seq![Step::FlagMissing(s.sunlight.lat is None, s.sunlight.lon is None)]
    } else {
        &&& t == GuiState { sunlight_errors: t.sunlight_errors, ..s }
        &&& t.sunlight_errors.lat == s.sunlight_errors.lat
        &&& t.sunlight_errors.lon == s.sunlight_errors.lon
        &&& if s.sunlight.sunrise is None {
            t.sunlight_errors.sunrise matches Some(e) && e@ == time_flag(
                s.sunlight_inputs.sunrise@,
                "set sunrise HH:MM"@,
            )
        } else {
            t.sunlight_errors.sunrise == s.sunlight_errors.sunrise
        }
        &&& if s.sunlight.sunset is None {
            t.sunlight_errors.sunset matches Some(e) && e@ == time_flag(
                s.sunlight_inputs.sunset@,
                "set sunset HH:MM"@,
            )
        } else {
            t.sunlight_errors.sunset == s.sunlight_errors.sunset
        }
        &&& st == Seq::<Step>::empty()
    }
}

/// Index of the device a scan selects: the one at the last used address,
/// else the first.
pub open spec fn pick_device(ds: Seq<DeviceInfo>, last: Option<String>) -> Option<int> {
    let at_last = match last {
        Some(ip) => if exists|i: int| 0 <= i < ds.len() && #[trigger] ds[i].ip@ == ip@ {
            Some(choose|i: int| 0 <= i < ds.len() && ds[i].ip@ == ip@ && forall|j: int|
                0 <= j < i ==> ds[j].ip@ != ip@)
        } else {
            None
        },
        None => None,
    };
    match at_last {
        Some(i) => Some(i),
        None => if ds.len() > 0 {
            Some(0)
        } else {
            None
        },
    }
}

/// `t` is `s` with device `d` selected and its address remembered; the
/// settings are saved.
pub open spec fn selected(s: GuiState, t: GuiState, d: DeviceInfo, st: Seq<Step>) -> bool {
    &&& t.device matches Some(x) && crate::discovery::same_device(x, d)
    &&& t.general.last_device_ip matches Some(ip) && ip@ == d.ip@
    &&& t.general.last_page == s.general.last_page
    &&& st == seq![Step::Save]
}

/// After an edit of a time input: the input holds `x`; a valid time is
/// stored and saved, an incomplete one clears the error, an invalid one
/// shows its error.
pub open spec fn time_edited(
    x: String,
    stored0: Option<String>,
    stored: Option<String>,
    err: Option<String>,
    st: Seq<Step>,
) -> bool {
    match time_verdict(vstd::utf8::encode_utf8(x@)) {
        TimeVerdict::Valid => {
            &&& stored matches Some(v) && v@ == x@
            &&& err is None
            &&& st == seq![Step::Save]
        },
        TimeVerdict::Incomplete => stored == stored0 && err is None && st == Seq::<Step>::empty(),
        TimeVerdict::Invalid(m) => {
            &&& stored == stored0
            &&& err matches Some(e) && e@ == m
            &&& st == Seq::<Step>::empty()
        },
    }
}

/// `t` is `s` with `u` restarted in `mode`, after saving.
pub open spec fn saved_restart(u: GuiState, t: GuiState, st: Seq<Step>, mode: Seq<char>) -> bool {
    t == restart_state(u, mode) && st == seq![Step::Save] + restart_steps(u, mode)
}

/// What a message does: the state `t` that follows `s`, and the effects.
pub open spec fn update_spec(s: GuiState, m: Message, t: GuiState, st: Seq<Step>) -> bool {
    match m {
        Message::Navigate(p) => {
            &&& t == GuiState { page: p, general: t.general, ..s }
            &&& t.general == GeneralConfig { last_page: t.general.last_page, ..s.general }
            &&& t.general.last_page@ == page_name_spec(p)
            &&& st == seq![Step::Save]
        },
        Message::TogglePower => t == GuiState { power: !s.power, ..s } && st == send_step(
            s,
            turn_json(!s.power),
        ),
        Message::SetBrightness(v) => t == GuiState {
            brightness: v,
            controls: ControlsConfig { brightness: v, ..s.controls },
            ..s
        } && st == send_step(s, brightness_json(v)),
        Message::SetColor(r, g, b) => {
            &&& t == GuiState { color: (r, g, b), controls: t.controls, ..s }
            &&& t.controls == ControlsConfig { color: t.controls.color, ..s.controls }
            &&& t.controls.color@ == seq![r, g, b]
            &&& st == send_step(s, colorwc_json((r, g, b), 0))
        },
        Message::SetColorTemp(k) => t == GuiState {
            color_temp: k,
            controls: ControlsConfig { color_temp: k, ..s.controls },
            ..s
        } && st == send_step(s, colorwc_json((0, 0, 0), k)),
        Message::DeviceCommandDone => t == s && st == Seq::<Step>::empty(),
        Message::DiscoveryTick => t == s && st == seq![Step::Scan],
        Message::DevicesDiscovered(ds) => {
            &&& t == GuiState { devices: ds, device: t.device, general: t.general, ..s }
            &&& if s.device is None && pick_device(ds@, s.general.last_device_ip) is Some {
                selected(s, t, ds@[pick_device(ds@, s.general.last_device_ip)->0], st)
            } else {
                t.device == s.device && t.general == s.general && st == Seq::<Step>::empty()
            }
        },
        Message::SelectDevice(i) => if i < s.devices@.len() {
            &&& t == GuiState { device: t.device, general: t.general, ..s }
            &&& selected(s, t, s.devices@[i as int], st)
        } else {
            t == s && st == Seq::<Step>::empty()
        },
        Message::ApplyTheme(name) => match (first_named(s.themes@, name@), s.device) {
            (Some(i), Some(d)) => match s.themes@[i].kind {
                Look::Solid(c) => t == GuiState { active_theme: Some(name), ..stopped(s) } && st
                    == seq![Step::Stop] + send_step(s, colorwc_json(c, 0)),
                Look::Animated => t == stopped(s) && st == seq![
                    Step::Stop,
                    Step::Spawn(with_mirror(s, seq!["theme"@, name@]), d.ip@, true, name@),
                ],
            },
            _ => t == stopped(s) && st == seq![Step::Stop],
        },
        Message::StopMode => t == stopped(s) && st == seq![Step::Stop],
        Message::ThemeFilterChanged(f) => t == GuiState { theme_filter: f, ..s } && st
            == Seq::<Step>::empty(),
        Message::Tick => t == s && st == Seq::<Step>::empty(),
        Message::SetScreenFps(v) => t == GuiState {
            screen: ScreenSettings { fps: v, ..s.screen },
            ..s
        } && st == Seq::<Step>::empty(),
        Message::SetScreenBrightness(v) => t == GuiState {
            screen: ScreenSettings { brightness: v, ..s.screen },
            ..s
        } && st == Seq::<Step>::empty(),
        Message::SetScreenSegments(v) => t == GuiState {
            screen: ScreenSettings {
                segments: if v < MAX_SEGMENTS { v } else { MAX_SEGMENTS },
                ..s.screen
            },
            ..s
        } && st == Seq::<Step>::empty(),
        Message::StartScreen => t == stopped(s) && st == start_steps(
            s,
            mode_args(s, "screen"@),
            false,
            "screen"@,
        ),
        Message::SetAudioMode(v) => saved_restart(
            GuiState { audio: AudioSettings { mode: v, ..s.audio }, ..s },
            t,
            st,
            "audio"@,
        ),
        Message::SetAudioPalette(v) => saved_restart(
            GuiState { audio: AudioSettings { palette: v, ..s.audio }, ..s },
            t,
            st,
            "audio"@,
        ),
        Message::SetAudioBrightness(v) => t == GuiState {
            audio: AudioSettings { brightness: v, ..s.audio },
            ..s
        } && st == Seq::<Step>::empty(),
        Message::SetAudioSensitivity(v) => {
            &&& t == GuiState { audio: t.audio, ..s }
            &&& t.audio == AudioSettings { sensitivity: t.audio.sensitivity, ..s.audio }
            &&& t.audio.sensitivity@ == tenths_text(v)
            &&& st == Seq::<Step>::empty()
        },
        Message::SetAudioSegments(v) => t == GuiState {
            audio: AudioSettings {
                segments: if v < MAX_SEGMENTS { v } else { MAX_SEGMENTS },
                ..s.audio
            },
            ..s
        } && st == Seq::<Step>::empty(),
        Message::ToggleAudioGradient(v) => saved_restart(
            GuiState { audio: AudioSettings { gradient: v, ..s.audio }, ..s },
            t,
            st,
            "audio"@,
        ),
        Message::StartAudio => t == stopped(s) && st == start_steps(
            s,
            mode_args(s, "audio"@),
            false,
            "audio"@,
        ),
        Message::SetAmbientBrightness(v) => t == GuiState {
            ambient: AmbientConfig { brightness: v, ..s.ambient },
            ..s
        } && st == Seq::<Step>::empty(),
        Message::ToggleAmbientDim(v) => saved_restart(
            GuiState { ambient: AmbientConfig { dim: v, ..s.ambient }, ..s },
            t,
            st,
            "ambient"@,
        ),
        Message::StartAmbient => t == stopped(s) && st == start_steps(
            s,
            mode_args(s, "ambient"@),
            false,
            "ambient"@,
        ),
        Message::SetSunlightPreset(v) => saved_restart(
            GuiState { sunlight: SunlightConfig { preset: v, ..s.sunlight }, ..s },
            t,
            st,
            "sunlight"@,
        ),
        Message::SetSunlightBrightness(v) => t == GuiState {
            sunlight: SunlightConfig { brightness: v, ..s.sunlight },
            ..s
        } && st == Seq::<Step>::empty(),
        Message::SetSunlightSegments(v) => t == GuiState {
            sunlight: SunlightConfig {
                segments: if v < MAX_SEGMENTS { v } else { MAX_SEGMENTS },
                ..s.sunlight
            },
            ..s
        } && st == Seq::<Step>::empty(),
        Message::SetSunlightTransition(v) => t == GuiState {
            sunlight: SunlightConfig { transition: v, ..s.sunlight },
            ..s
        } && st == Seq::<Step>::empty(),
        Message::StartSunlight => if restartable_mode(s, "sunlight"@) {
            t == stopped(s) && st == start_steps(s, mode_args(s, "sunlight"@), false, "sunlight"@)
        } else {
            populated(s, t, st)
        },
        Message::SetSunlightUseLocation(v) => saved_restart(
            GuiState { sunlight: SunlightConfig { use_location: v, ..s.sunlight }, ..s },
            t,
            st,
            "sunlight"@,
        ),
        Message::EditSunlightLat(x) => t == GuiState {
            sunlight_inputs: SunlightInputs { lat: x, ..s.sunlight_inputs },
            ..s
        } && st == seq![Step::Validate(Coordinate::Latitude)],
        Message::EditSunlightLon(x) => t == GuiState {
            sunlight_inputs: SunlightInputs { lon: x, ..s.sunlight_inputs },
            ..s
        } && st == seq![Step::Validate(Coordinate::Longitude)],
        Message::EditSunlightSunrise(x) => {
            &&& t == GuiState {
                sunlight_inputs: SunlightInputs { sunrise: x, ..s.sunlight_inputs },
                sunlight: t.sunlight,
                sunlight_errors: t.sunlight_errors,
                ..s
            }
            &&& t.sunlight == SunlightConfig { sunrise: t.sunlight.sunrise, ..s.sunlight }
            &&& t.sunlight_errors == SunlightInputErrors {
                sunrise: t.sunlight_errors.sunrise,
                ..s.sunlight_errors
            }
            &&& time_edited(x, s.sunlight.sunrise, t.sunlight.sunrise, t.sunlight_errors.sunrise, st)
        },
        Message::EditSunlightSunset(x) => {
            &&& t == GuiState {
                sunlight_inputs: SunlightInputs { sunset: x, ..s.sunlight_inputs },
                sunlight: t.sunlight,
                sunlight_errors: t.sunlight_errors,
                ..s
            }
            &&& t.sunlight == SunlightConfig { sunset: t.sunlight.sunset, ..s.sunlight }
            &&& t.sunlight_errors == SunlightInputErrors {
                sunset: t.sunlight_errors.sunset,
                ..s.sunlight_errors
            }
            &&& time_edited(x, s.sunlight.sunset, t.sunlight.sunset, t.sunlight_errors.sunset, st)
        },
        Message::SubmitSunlightCoords => if restartable_mode(s, "sunlight"@) {
            saved_restart(s, t, st, "sunlight"@)
        } else {
            populated(s, t, st)
        },
        Message::SetSunlightDayTemp(v) => t == GuiState {
            sunlight: SunlightConfig { day_temp: v, ..s.sunlight },
            ..s
        } && st == Seq::<Step>::empty(),
        Message::SetSunlightNightTemp(v) => t == GuiState {
            sunlight: SunlightConfig { night_temp: v, ..s.sunlight },
            ..s
        } && st == Seq::<Step>::empty(),
        Message::ToggleSunlightNightBrightnessOverride(on) => saved_restart(
            GuiState {
                sunlight: SunlightConfig {
                    night_brightness: if on {
                        Some(
                            match s.sunlight.night_brightness {
                                Some(b) => b,
                                None => 30u8,
                            },
                        )
                    } else {
                        None
                    },
                    ..s.sunlight
                },
                ..s
            },
            t,
            st,
            "sunlight"@,
        ),
        Message::SetSunlightNightBrightness(v) => t == GuiState {
            sunlight: SunlightConfig { night_brightness: Some(v), ..s.sunlight },
            ..s
        } && st == Seq::<Step>::empty(),
        Message::ToggleMirror(v) => {
            let u = GuiState {
                mirror: v,
                screen: ScreenSettings { mirror: v, ..s.screen },
                audio: AudioSettings { mirror: v, ..s.audio },
                ..s
            };
            match s.active_mode {
                Some(md) => saved_restart(u, t, st, md@),
                None => t == u && st == seq![Step::Save],
            }
        },
        Message::SaveConfig => t == s && st == seq![Step::Save],
        Message::ApplyScreenSettings => saved_restart(s, t, st, "screen"@),
        Message::ApplyAudioSettings => saved_restart(s, t, st, "audio"@),
        Message::ApplyAmbientSettings => saved_restart(s, t, st, "ambient"@),
        Message::ApplySunlightSettings => saved_restart(s, t, st, "sunlight"@),
    }
}

/// `i` is the index of the first device at address `ip`, if any.
pub open spec fn first_at_spec(devices: Seq<DeviceInfo>, ip: Seq<char>, i: Option<usize>) -> bool {
    match i {
        Some(k) => k < devices.len() && devices[k as int].ip@ == ip && forall|j: int|
            0 <= j < k ==> devices[j].ip@ != ip,
        None => forall|j: int| 0 <= j < devices.len() ==> #[trigger] devices[j].ip@ != ip,
    }
}

/// Only the selected device and the general settings differ.
pub open spec fn only_device_changed(s: GuiState, t: GuiState) -> bool {
    t == GuiState { device: t.device, general: t.general, ..s }
}

/// The verdict on a coordinate's text is applied: a valid value is stored
/// and saved, an incomplete one clears the error, an invalid one shows it.
pub open spec fn coordinate_applied(
    s: GuiState,
    t: GuiState,
    which: Coordinate,
    verdict: TriState<String>,
    st: Seq<Step>,
) -> bool {
    let (slot0, slot, err) = match which {
        Coordinate::Latitude => (s.sunlight.lat, t.sunlight.lat, t.sunlight_errors.lat),
        Coordinate::Longitude => (s.sunlight.lon, t.sunlight.lon, t.sunlight_errors.lon),
    };
    &&& t == GuiState { sunlight: t.sunlight, sunlight_errors: t.sunlight_errors, ..s }
    &&& match which {
        Coordinate::Latitude => {
            &&& t.sunlight == SunlightConfig { lat: t.sunlight.lat, ..s.sunlight }
            &&& t.sunlight_errors == SunlightInputErrors { lat: t.sunlight_errors.lat, ..s.sunlight_errors }
        },
        Coordinate::Longitude => {
            &&& t.sunlight == SunlightConfig { lon: t.sunlight.lon, ..s.sunlight }
            &&& t.sunlight_errors == SunlightInputErrors { lon: t.sunlight_errors.lon, ..s.sunlight_errors }
        },
    }
    &&& match verdict {
        TriState::Valid(v) => slot == Some(v) && err is None && st == seq![Step::Save],
        TriState::Incomplete => slot == slot0 && err is None && st == Seq::<Step>::empty(),
        TriState::Invalid(e) => slot == slot0 && err == Some(e) && st == Seq::<Step>::empty(),
    }
}

/// A missing coordinate is flagged with its input's error, or with a
/// request to set it.
pub open spec fn coordinate_flagged(s: GuiState, t: GuiState, which: Coordinate, invalid: Option<String>) -> bool {
    let msg = match invalid {
        Some(m) => m@,
        None => match which {
            Coordinate::Latitude => "set latitude"@,
            Coordinate::Longitude => "set longitude"@,
        },
    };
    &&& t == GuiState { sunlight_errors: t.sunlight_errors, ..s }
    &&& match which {
        Coordinate::Latitude => {
            &&& t.sunlight_errors == SunlightInputErrors { lat: t.sunlight_errors.lat, ..s.sunlight_errors }
            &&& t.sunlight_errors.lat matches Some(e) && e@ == msg
        },
        Coordinate::Longitude => {
            &&& t.sunlight_errors == SunlightInputErrors { lon: t.sunlight_errors.lon, ..s.sunlight_errors }
            &&& t.sunlight_errors.lon matches Some(e) && e@ == msg
        },
    }
}

/// Pushes the command `cmd`, which sends `msg` to `ip`.
fn push_send(es: &mut Vec<Effect>, cmd: Result<Command, CommandError>, Ghost(ip): Ghost<Seq<char>>, Ghost(msg): Ghost<Seq<char>>)
    requires
        addressed(ip, msg, cmd),
    ensures
        steps(final(es)@) == steps(old(es)@).push(sent(ip, msg)),
{
    assert(step_of(Effect::Send(cmd)) == sent(ip, msg));
    push_effect(es, Effect::Send(cmd));
}

impl GuiState {
    /// The first device at address `ip`.
    fn first_at(devices: &Vec<DeviceInfo>, ip: &str) -> (i: Option<usize>)
        ensures
            first_at_spec(devices@, ip@, i),
    {
        let mut k: usize = 0;
        while k < devices.len()
            invariant
                k <= devices@.len(),
                forall|j: int| 0 <= j < k ==> #[trigger] devices@[j].ip@ != ip@,
            decreases devices@.len() - k,
        {
            if str_eq(devices[k].ip.as_str(), ip) {
                return Some(k);
            }
            k = k + 1;
        }
        None
    }

    /// Selects device `i` of the list and remembers its address.
    fn select(&mut self, es: &mut Vec<Effect>, i: usize)
        requires
            i < old(self).devices@.len(),
            steps(old(es)@) == Seq::<Step>::empty(),
        ensures
            only_device_changed(*old(self), *final(self)),
            selected(*old(self), *final(self), old(self).devices@[i as int], steps(final(es)@)),
    {
        let d = self.devices[i].duplicate();
        let ip = d.ip.clone();
        self.device = Some(d);
        self.general.last_device_ip = Some(ip);
        push_effect(es, Effect::Save);
        assert(steps(es@) =~= seq![Step::Save]);
    }

    /// Flags the missing inputs of the sunlight schedule.
    fn populate_errors(&mut self, es: &mut Vec<Effect>)
        requires
            steps(old(es)@) == Seq::<Step>::empty(),
        ensures
            populated(*old(self), *final(self), steps(final(es)@)),
    {
        if self.sunlight.use_location {
            push_effect(
                es,
                Effect::FlagMissing {
                    lat: self.sunlight.lat.is_none(),
                    lon: self.sunlight.lon.is_none(),
                },
            );
            assert(steps(es@) =~= seq![
                Step::FlagMissing(self.sunlight.lat is None, self.sunlight.lon is None),
            ]);
        } else {
            if self.sunlight.sunrise.is_none() {
                let e = match validate_time(self.sunlight_inputs.sunrise.as_str()) {
                    TriState::Invalid(e) => e,
                    _ => String::from_str("set sunrise HH:MM"),
                };
                self.sunlight_errors.sunrise = Some(e);
            }
            if self.sunlight.sunset.is_none() {
                let e = match validate_time(self.sunlight_inputs.sunset.as_str()) {
                    TriState::Invalid(e) => e,
                    _ => String::from_str("set sunset HH:MM"),
                };
                self.sunlight_errors.sunset = Some(e);
            }
        }
    }

    /// Applies the verdict on a coordinate input's text: a valid value is
    /// stored and the settings saved, an incomplete one clears the error,
    /// an invalid one shows it.
    pub fn coordinate_checked(&mut self, which: Coordinate, verdict: TriState<String>) -> (es: Vec<Effect>)
        ensures
            coordinate_applied(*old(self), *final(self), which, verdict, steps(es@)),
    {
        let mut es: Vec<Effect> = Vec::new();
        let saved = match which {
            Coordinate::Latitude => apply_tristate(verdict, &mut self.sunlight.lat, &mut self.sunlight_errors.lat),
            Coordinate::Longitude => apply_tristate(verdict, &mut self.sunlight.lon, &mut self.sunlight_errors.lon),
        };
        if saved {
            push_effect(&mut es, Effect::Save);
        }
        assert(steps(es@) =~= if saved { seq![Step::Save] } else { Seq::<Step>::empty() });
        es
    }

    /// Flags a missing coordinate: its input's own error when the text is
    /// invalid, else a request to set it.
    pub fn flag_coordinate(&mut self, which: Coordinate, invalid: Option<String>)
        ensures
            coordinate_flagged(*old(self), *final(self), which, invalid),
    {
        match which {
            Coordinate::Latitude => {
                let e = match invalid {
                    Some(m) => m,
                    None => String::from_str("set latitude"),
                };
                self.sunlight_errors.lat = Some(e);
            },
            Coordinate::Longitude => {
                let e = match invalid {
                    Some(m) => m,
                    None => String::from_str("set longitude"),
                };
                self.sunlight_errors.lon = Some(e);
            },
        }
    }
}

impl GuiState {
    /// Selects a device after a scan, if none is selected yet: the one at
    /// the last used address, else the first found.
    fn pick_after_scan(&mut self, es: &mut Vec<Effect>)
        requires
            steps(old(es)@) == Seq::<Step>::empty(),
        ensures
            if old(self).device is None && pick_device(old(self).devices@, old(self).general.last_device_ip) is Some {
                &&& only_device_changed(*old(self), *final(self))
                &&& selected(*old(self), *final(self), old(self).devices@[pick_device(old(self).devices@, old(self).general.last_device_ip)->0], steps(final(es)@))
            } else {
                *final(self) == *old(self) && steps(final(es)@) == Seq::<Step>::empty()
            },
    {
        if self.device.is_some() {
            return;
        }
        let ghost ds = self.devices@;
        let ghost last = self.general.last_device_ip;
        let at_last: Option<usize> = match &self.general.last_device_ip {
            Some(ip) => Self::first_at(&self.devices, ip.as_str()),
            None => None,
        };
        proof {
            match last {
                Some(ip) => {
                    match at_last {
                        Some(k) => {
                            assert(ds[k as int].ip@ == ip@);
                            let c = choose|i: int| 0 <= i < ds.len() && ds[i].ip@ == ip@ && forall|j: int|
                                0 <= j < i ==> ds[j].ip@ != ip@;
                            assert(0 <= c < ds.len() && ds[c].ip@ == ip@ && forall|j: int|
                                0 <= j < c ==> ds[j].ip@ != ip@);
                            if c < k {
                                assert(ds[c].ip@ != ip@);
                            }
                            if c > k {
                                assert(ds[k as int].ip@ != ip@);
                            }
                            assert(pick_device(ds, last) == Some(k as int));
                        },
                        None => {
                            assert(!exists|i: int| 0 <= i < ds.len() && #[trigger] ds[i].ip@ == ip@);
                        },
                    }
                },
                None => {},
            }
        }
        let pick = match at_last {
            Some(k) => Some(k),
            None => if self.devices.len() > 0 {
                Some(0)
            } else {
                None
            },
        };
        match pick {
            Some(k) => {
                self.select(es, k);
            },
            None => {},
        }
    }
}

/// Which handler takes a message.
pub open spec fn message_group(m: Message) -> int {
    match m {
        Message::Navigate(..) => 0,
        Message::TogglePower => 0,
        Message::SetBrightness(..) => 0,
        Message::SetColor(..) => 0,
        Message::SetColorTemp(..) => 0,
        Message::DeviceCommandDone => 0,
        Message::DiscoveryTick => 0,
        Message::DevicesDiscovered(..) => 0,
        Message::SelectDevice(..) => 0,
        Message::ApplyTheme(..) => 0,
        Message::StopMode => 0,
        Message::ThemeFilterChanged(..) => 0,
        Message::Tick => 0,
        Message::SetScreenFps(..) => 1,
        Message::SetScreenBrightness(..) => 1,
        Message::SetScreenSegments(..) => 1,
        Message::StartScreen => 1,
        Message::SetAudioMode(..) => 1,
        Message::SetAudioPalette(..) => 1,
        Message::SetAudioBrightness(..) => 1,
        Message::SetAudioSensitivity(..) => 1,
        Message::SetAudioSegments(..) => 1,
        Message::ToggleAudioGradient(..) => 1,
        Message::StartAudio => 1,
        Message::SetAmbientBrightness(..) => 1,
        Message::ToggleAmbientDim(..) => 1,
        Message::StartAmbient => 1,
        Message::SetSunlightPreset(..) => 2,
        Message::SetSunlightBrightness(..) => 2,
        Message::SetSunlightSegments(..) => 2,
        Message::SetSunlightTransition(..) => 2,
        Message::StartSunlight => 2,
        Message::SetSunlightUseLocation(..) => 2,
        Message::EditSunlightLat(..) => 2,
        Message::EditSunlightLon(..) => 2,
        Message::EditSunlightSunrise(..) => 2,
        Message::EditSunlightSunset(..) => 2,
        Message::SubmitSunlightCoords => 2,
        Message::SetSunlightDayTemp(..) => 2,
        Message::SetSunlightNightTemp(..) => 2,
        Message::ToggleSunlightNightBrightnessOverride(..) => 2,
        Message::SetSunlightNightBrightness(..) => 2,
        Message::ToggleMirror(..) => 3,
        Message::SaveConfig => 3,
        Message::ApplyScreenSettings => 3,
        Message::ApplyAudioSettings => 3,
        Message::ApplyAmbientSettings => 3,
        Message::ApplySunlightSettings => 3,
    }
}

fn group_of(m: &Message) -> (g: u8)
    ensures
        g == message_group(*m),
{
    match m {
        Message::Navigate(..) => 0,
        Message::TogglePower => 0,
        Message::SetBrightness(..) => 0,
        Message::SetColor(..) => 0,
        Message::SetColorTemp(..) => 0,
        Message::DeviceCommandDone => 0,
        Message::DiscoveryTick => 0,
        Message::DevicesDiscovered(..) => 0,
        Message::SelectDevice(..) => 0,
        Message::ApplyTheme(..) => 0,
        Message::StopMode => 0,
        Message::ThemeFilterChanged(..) => 0,
        Message::Tick => 0,
        Message::SetScreenFps(..) => 1,
        Message::SetScreenBrightness(..) => 1,
        Message::SetScreenSegments(..) => 1,
        Message::StartScreen => 1,
        Message::SetAudioMode(..) => 1,
        Message::SetAudioPalette(..) => 1,
        Message::SetAudioBrightness(..) => 1,
        Message::SetAudioSensitivity(..) => 1,
        Message::SetAudioSegments(..) => 1,
        Message::ToggleAudioGradient(..) => 1,
        Message::StartAudio => 1,
        Message::SetAmbientBrightness(..) => 1,
        Message::ToggleAmbientDim(..) => 1,
        Message::StartAmbient => 1,
        Message::SetSunlightPreset(..) => 2,
        Message::SetSunlightBrightness(..) => 2,
        Message::SetSunlightSegments(..) => 2,
        Message::SetSunlightTransition(..) => 2,
        Message::StartSunlight => 2,
        Message::SetSunlightUseLocation(..) => 2,
        Message::EditSunlightLat(..) => 2,
        Message::EditSunlightLon(..) => 2,
        Message::EditSunlightSunrise(..) => 2,
        Message::EditSunlightSunset(..) => 2,
        Message::SubmitSunlightCoords => 2,
        Message::SetSunlightDayTemp(..) => 2,
        Message::SetSunlightNightTemp(..) => 2,
        Message::ToggleSunlightNightBrightnessOverride(..) => 2,
        Message::SetSunlightNightBrightness(..) => 2,
        Message::ToggleMirror(..) => 3,
        Message::SaveConfig => 3,
        Message::ApplyScreenSettings => 3,
        Message::ApplyAudioSettings => 3,
        Message::ApplyAmbientSettings => 3,
        Message::ApplySunlightSettings => 3,
    }
}

impl GuiState {
    /// Handles the messages about the device, the controls and the themes.
    #[verifier::spinoff_prover]
    fn on_device_message(&mut self, message: Message) -> (es: Vec<Effect>)
        requires
            message_group(message) == 0,
        ensures
            update_spec(*old(self), message, *final(self), steps(es@)),
    {
        let mut es: Vec<Effect> = Vec::new();
        let ghost s0 = *self;
        assert(steps(es@) =~= Seq::<Step>::empty());
        match message {
            Message::Navigate(page) => {
                self.page = page;
                self.general.last_page = String::from_str(page_name(page));
                push_effect(&mut es, Effect::Save);
            },
            Message::TogglePower => {
                self.power = !self.power;
                match &self.device {
                    Some(d) => {
                        let cmd = send_turn(d.ip.as_str(), self.power);
                        push_send(&mut es, cmd, Ghost(d.ip@), Ghost(turn_json(self.power)));
                    },
                    None => {},
                }
            },
            Message::SetBrightness(v) => {
                self.brightness = v;
                self.controls.brightness = v;
                match &self.device {
                    Some(d) => {
                        let cmd = send_brightness(d.ip.as_str(), v);
                        push_send(&mut es, cmd, Ghost(d.ip@), Ghost(brightness_json(v)));
                    },
                    None => {},
                }
            },
            Message::SetColor(r, g, b) => {
                self.color = (r, g, b);
                self.controls.color = [r, g, b];
                assert(self.controls.color@ =~= seq![r, g, b]);
                match &self.device {
                    Some(d) => {
                        let cmd = send_color(d.ip.as_str(), r, g, b);
                        push_send(&mut es, cmd, Ghost(d.ip@), Ghost(colorwc_json((r, g, b), 0)));
                    },
                    None => {},
                }
            },
            Message::SetColorTemp(k) => {
                self.color_temp = k;
                self.controls.color_temp = k;
                match &self.device {
                    Some(d) => {
                        let cmd = send_color_temp(d.ip.as_str(), k);
                        push_send(&mut es, cmd, Ghost(d.ip@), Ghost(colorwc_json((0, 0, 0), k)));
                    },
                    None => {},
                }
            },
            Message::DeviceCommandDone => {},
            Message::DiscoveryTick => {
                push_effect(&mut es, Effect::Scan);
            },
            Message::DevicesDiscovered(devices) => {
                self.devices = devices;
                self.pick_after_scan(&mut es);
            },
            Message::SelectDevice(i) => {
                if i < self.devices.len() {
                    self.select(&mut es, i);
                }
            },
            Message::ApplyTheme(name) => {
                self.stop(&mut es);
                let kind = match crate::themes::get_theme(self.themes.as_slice(), name.as_str()) {
                    Some(t) => Some(t.kind),
                    None => None,
                };
                match (kind, &self.device) {
                    (Some(Look::Solid(c)), Some(d)) => {
                        let cmd = send_color(d.ip.as_str(), c.0, c.1, c.2);
                        push_send(&mut es, cmd, Ghost(d.ip@), Ghost(colorwc_json(c, 0)));
                        self.active_theme = Some(name);
                        assert(steps(es@) =~= seq![Step::Stop] + send_step(s0, colorwc_json(c, 0)));
                            },
                    (Some(Look::Animated), Some(d)) => {
                        let mut args: Vec<String> = Vec::new();
                        assert(texts(args@) =~= Seq::<Seq<char>>::empty());
                        push_arg(&mut args, String::from_str("theme"));
                        push_arg(&mut args, name.clone());
                        if self.mirror {
                            push_arg(&mut args, String::from_str("--mirror"));
                        }
                        assert(texts(args@) == with_mirror(s0, seq!["theme"@, name@]));
                        let ip = d.ip.clone();
                        let ghost nm = name;
                        push_effect(&mut es, Effect::Spawn { args, ip, launch: Launch::Theme(name) });
                        assert(steps(es@) =~= seq![
                            Step::Stop,
                            Step::Spawn(with_mirror(s0, seq!["theme"@, nm@]), d.ip@, true, nm@),
                        ]);
                            },
                    _ => {
                            },
                }
            },
            Message::StopMode => {
                self.stop(&mut es);
            },
            Message::ThemeFilterChanged(filter) => {
                self.theme_filter = filter;
            },
            Message::Tick => {},
            _ => {},
        }
        es
    }

    /// Handles the messages of the screen, audio and ambient pages.
    #[verifier::spinoff_prover]
    fn on_mode_message(&mut self, message: Message) -> (es: Vec<Effect>)
        requires
            message_group(message) == 1,
        ensures
            update_spec(*old(self), message, *final(self), steps(es@)),
    {
        let mut es: Vec<Effect> = Vec::new();
        let ghost s0 = *self;
        assert(steps(es@) =~= Seq::<Step>::empty());
        match message {
            Message::SetScreenFps(v) => {
                self.screen.fps = v;
            },
            Message::SetScreenBrightness(v) => {
                self.screen.brightness = v;
            },
            Message::SetScreenSegments(v) => {
                self.screen.segments = clamp_segments(v);
            },
            Message::StartScreen => {
                let args = self.mode_arguments("screen");
                self.start(&mut es, args, Launch::Mode(String::from_str("screen")));
            },
            Message::SetAudioMode(v) => {
                self.audio.mode = v;
                push_effect(&mut es, Effect::Save);
                self.restart_if_active(&mut es, "audio");
            },
            Message::SetAudioPalette(v) => {
                self.audio.palette = v;
                push_effect(&mut es, Effect::Save);
                self.restart_if_active(&mut es, "audio");
            },
            Message::SetAudioBrightness(v) => {
                self.audio.brightness = v;
            },
            Message::SetAudioSensitivity(v) => {
                self.audio.sensitivity = tenths_string(v);
            },
            Message::SetAudioSegments(v) => {
                self.audio.segments = clamp_segments(v);
            },
            Message::ToggleAudioGradient(v) => {
                self.audio.gradient = v;
                push_effect(&mut es, Effect::Save);
                self.restart_if_active(&mut es, "audio");
            },
            Message::StartAudio => {
                let args = self.mode_arguments("audio");
                self.start(&mut es, args, Launch::Mode(String::from_str("audio")));
            },
            Message::SetAmbientBrightness(v) => {
                self.ambient.brightness = v;
            },
            Message::ToggleAmbientDim(v) => {
                self.ambient.dim = v;
                push_effect(&mut es, Effect::Save);
                self.restart_if_active(&mut es, "ambient");
            },
            Message::StartAmbient => {
                let args = self.mode_arguments("ambient");
                self.start(&mut es, args, Launch::Mode(String::from_str("ambient")));
            },
            _ => {},
        }
        es
    }

    /// Handles the messages of the sunlight page.
    #[verifier::spinoff_prover]
    fn on_sunlight_message(&mut self, message: Message) -> (es: Vec<Effect>)
        requires
            message_group(message) == 2,
        ensures
            update_spec(*old(self), message, *final(self), steps(es@)),
    {
        let mut es: Vec<Effect> = Vec::new();
        let ghost s0 = *self;
        assert(steps(es@) =~= Seq::<Step>::empty());
        match message {
            Message::SetSunlightPreset(v) => {
                self.sunlight.preset = v;
                push_effect(&mut es, Effect::Save);
                self.restart_if_active(&mut es, "sunlight");
            },
            Message::SetSunlightBrightness(v) => {
                self.sunlight.brightness = v;
            },
            Message::SetSunlightSegments(v) => {
                self.sunlight.segments = clamp_segments(v);
            },
            Message::SetSunlightTransition(v) => {
                self.sunlight.transition = v;
            },
            Message::StartSunlight => {
                if self.sunlight.is_restartable() {
                    let args = self.mode_arguments("sunlight");
                    self.start(&mut es, args, Launch::Mode(String::from_str("sunlight")));
                } else {
                    proof {
                        reveal_strlit("sunlight");
                        reveal_strlit("screen");
                        reveal_strlit("audio");
                        reveal_strlit("ambient");
                        assert("sunlight"@[1] != "screen"@[1] && "sunlight"@[0] != "audio"@[0]
                            && "sunlight"@[0] != "ambient"@[0]);
                        assert(!restartable_mode(s0, "sunlight"@));
                    }
                    self.populate_errors(&mut es);
                }
            },
            Message::SetSunlightUseLocation(v) => {
                self.sunlight.use_location = v;
                push_effect(&mut es, Effect::Save);
                self.restart_if_active(&mut es, "sunlight");
            },
            Message::EditSunlightLat(x) => {
                self.sunlight_inputs.lat = x;
                push_effect(&mut es, Effect::Validate(Coordinate::Latitude));
            },
            Message::EditSunlightLon(x) => {
                self.sunlight_inputs.lon = x;
                push_effect(&mut es, Effect::Validate(Coordinate::Longitude));
            },
            Message::EditSunlightSunrise(x) => {
                self.sunlight_inputs.sunrise = x;
                let r = validate_time(self.sunlight_inputs.sunrise.as_str());
                if apply_tristate(r, &mut self.sunlight.sunrise, &mut self.sunlight_errors.sunrise) {
                    push_effect(&mut es, Effect::Save);
                }
            },
            Message::EditSunlightSunset(x) => {
                self.sunlight_inputs.sunset = x;
                let r = validate_time(self.sunlight_inputs.sunset.as_str());
                if apply_tristate(r, &mut self.sunlight.sunset, &mut self.sunlight_errors.sunset) {
                    push_effect(&mut es, Effect::Save);
                }
            },
            Message::SubmitSunlightCoords => {
                if self.sunlight.is_restartable() {
                    push_effect(&mut es, Effect::Save);
                    self.restart_if_active(&mut es, "sunlight");
                } else {
                    proof {
                        reveal_strlit("sunlight");
                        reveal_strlit("screen");
                        reveal_strlit("audio");
                        reveal_strlit("ambient");
                        assert("sunlight"@[1] != "screen"@[1] && "sunlight"@[0] != "audio"@[0]
                            && "sunlight"@[0] != "ambient"@[0]);
                    }
                    self.populate_errors(&mut es);
                }
            },
            Message::SetSunlightDayTemp(v) => {
                self.sunlight.day_temp = v;
            },
            Message::SetSunlightNightTemp(v) => {
                self.sunlight.night_temp = v;
            },
            Message::ToggleSunlightNightBrightnessOverride(on) => {
                self.sunlight.night_brightness = if on {
                    Some(
                        match self.sunlight.night_brightness {
                            Some(b) => b,
                            None => 30,
                        },
                    )
                } else {
                    None
                };
                push_effect(&mut es, Effect::Save);
                self.restart_if_active(&mut es, "sunlight");
            },
            Message::SetSunlightNightBrightness(v) => {
                self.sunlight.night_brightness = Some(v);
            },
            _ => {},
        }
        es
    }

    /// Handles the mirror toggle and the explicit saves.
    #[verifier::spinoff_prover]
    fn on_settings_message(&mut self, message: Message) -> (es: Vec<Effect>)
        requires
            message_group(message) == 3,
        ensures
            update_spec(*old(self), message, *final(self), steps(es@)),
    {
        let mut es: Vec<Effect> = Vec::new();
        let ghost s0 = *self;
        assert(steps(es@) =~= Seq::<Step>::empty());
        match message {
            Message::ToggleMirror(v) => {
                self.mirror = v;
                self.screen.mirror = v;
                self.audio.mirror = v;
                push_effect(&mut es, Effect::Save);
                match self.active_mode.clone() {
                    Some(m) => {
                        self.restart_if_active(&mut es, m.as_str());
                    },
                    None => {},
                }
            },
            Message::SaveConfig => {
                push_effect(&mut es, Effect::Save);
            },
            Message::ApplyScreenSettings => {
                push_effect(&mut es, Effect::Save);
                self.restart_if_active(&mut es, "screen");
            },
            Message::ApplyAudioSettings => {
                push_effect(&mut es, Effect::Save);
                self.restart_if_active(&mut es, "audio");
            },
            Message::ApplyAmbientSettings => {
                push_effect(&mut es, Effect::Save);
                self.restart_if_active(&mut es, "ambient");
            },
            Message::ApplySunlightSettings => {
                push_effect(&mut es, Effect::Save);
                self.restart_if_active(&mut es, "sunlight");
            },

            _ => {},
        }
        es
    }

    /// Handles one message: changes the state and returns what the shell
    /// must do about it, in order.
    pub fn update(&mut self, message: Message) -> (es: Vec<Effect>)
        ensures
            update_spec(*old(self), message, *final(self), steps(es@)),
    {
        let g = group_of(&message);
        if g == 0 {
            self.on_device_message(message)
        } else if g == 1 {
            self.on_mode_message(message)
        } else if g == 2 {
            self.on_sunlight_message(message)
        } else {
            self.on_settings_message(message)
        }
    }
}

// ── Start-up ────────────────────────────────────────────────────────────────

/// The text of an optional setting, empty when it is not set.
pub open spec fn text_or_empty(o: Option<String>) -> Seq<char> {
    match o {
        Some(x) => x@,
        None => Seq::empty(),
    }
}

fn string_or_empty(o: &Option<String>) -> (s: String)
    ensures
        s@ == text_or_empty(*o),
{
    match o {
        Some(x) => x.clone(),
        None => String::new(),
    }
}

impl GuiState {
    /// The state at start-up from the saved settings and the themes: the
    /// saved page, the saved controls, mirroring as saved for the screen,
    /// the sunlight inputs filled from the saved values, no device yet and
    /// nothing running. The shell scans for devices first.
    pub fn new(
        general: GeneralConfig,
        controls: ControlsConfig,
        screen: ScreenSettings,
        audio: AudioSettings,
        ambient: AmbientConfig,
        sunlight: SunlightConfig,
        themes: Vec<ThemeDef<Look>>,
    ) -> (r: (GuiState, Vec<Effect>))
        ensures
            r.0.page == crate::gui::page_named(general.last_page@),
            r.0.device is None,
            r.0.devices@.len() == 0,
            r.0.general == general && r.0.controls == controls && r.0.screen == screen,
            r.0.audio == audio && r.0.ambient == ambient && r.0.sunlight == sunlight,
            r.0.power,
            r.0.brightness == controls.brightness,
            r.0.color == (controls.color@[0], controls.color@[1], controls.color@[2]),
            r.0.color_temp == controls.color_temp,
            r.0.themes == themes,
            r.0.active_theme is None && r.0.active_mode is None,
            !r.0.running && r.0.elapsed_secs == 0,
            r.0.theme_filter@ == "all"@,
            r.0.mirror == screen.mirror,
            r.0.sunlight_inputs.lat@ == text_or_empty(sunlight.lat),
            r.0.sunlight_inputs.lon@ == text_or_empty(sunlight.lon),
            r.0.sunlight_inputs.sunrise@ == text_or_empty(sunlight.sunrise),
            r.0.sunlight_inputs.sunset@ == text_or_empty(sunlight.sunset),
            r.0.sunlight_errors.lat is None && r.0.sunlight_errors.lon is None,
            r.0.sunlight_errors.sunrise is None && r.0.sunlight_errors.sunset is None,
            steps(r.1@) == seq![Step::Scan],
    {
        let page = crate::gui::page_from_name(general.last_page.as_str());
        let inputs = SunlightInputs {
            lat: string_or_empty(&sunlight.lat),
            lon: string_or_empty(&sunlight.lon),
            sunrise: string_or_empty(&sunlight.sunrise),
            sunset: string_or_empty(&sunlight.sunset),
        };
        let errors = SunlightInputErrors { lat: None, lon: None, sunrise: None, sunset: None };
        let state = GuiState {
            page,
            device: None,
            devices: Vec::new(),
            brightness: controls.brightness,
            color: (controls.color[0], controls.color[1], controls.color[2]),
            color_temp: controls.color_temp,
            mirror: screen.mirror,
            general,
            controls,
            screen,
            audio,
            ambient,
            sunlight,
            power: true,
            themes,
            active_theme: None,
            running: false,
            theme_filter: String::from_str("all"),
            active_mode: None,
            elapsed_secs: 0,
            sunlight_inputs: inputs,
            sunlight_errors: errors,
        };
        let mut es: Vec<Effect> = Vec::new();
        push_effect(&mut es, Effect::Scan);
        assert(steps(es@) =~= seq![Step::Scan]);
        (state, es)
    }
}

// ── Laws ────────────────────────────────────────────────────────────────────

/// The segment counts are within the firmware limit.
pub open spec fn segments_capped(s: GuiState) -> bool {
    &&& s.screen.segments <= MAX_SEGMENTS
    &&& s.audio.segments <= MAX_SEGMENTS
    &&& s.sunlight.segments <= MAX_SEGMENTS
}

/// Every process start in a list of effects comes after a stop.
pub open spec fn stop_before_start(st: Seq<Step>) -> bool {
    forall|i: int|
        0 <= i < st.len() && #[trigger] st[i] is Spawn ==> exists|j: int| 0 <= j < i && st[j] is Stop
}

proof fn lemma_start_steps_ordered(s: GuiState, args: Seq<Seq<char>>, theme: bool, name: Seq<char>)
    ensures
        stop_before_start(start_steps(s, args, theme, name)),
        start_steps(s, args, theme, name)[0] is Stop,
{
    let st = start_steps(s, args, theme, name);
    assert forall|i: int| 0 <= i < st.len() && #[trigger] st[i] is Spawn implies exists|j: int|
        0 <= j < i && st[j] is Stop by {
        assert(st[0] is Stop);
    }
}

proof fn lemma_saved_restart_ordered(u: GuiState, mode: Seq<char>)
    ensures
        stop_before_start(seq![Step::Save] + restart_steps(u, mode)),
{
    let st = seq![Step::Save] + restart_steps(u, mode);
    if restarts(u, mode) {
        lemma_start_steps_ordered(u, mode_args(u, mode), false, mode);
        let r = restart_steps(u, mode);
        assert forall|i: int| 0 <= i < st.len() && #[trigger] st[i] is Spawn implies exists|j: int|
            0 <= j < i && st[j] is Stop by {
            assert(st[i] == r[i - 1]);
            assert(st[1] == r[0]);
        }
    } else {
        assert(st =~= seq![Step::Save]);
    }
}

/// The shell never starts a second process next to a running one: in the
/// effects of any message, every start is preceded by a stop.
#[verifier::spinoff_prover]
pub proof fn lemma_stop_before_start(s: GuiState, m: Message, t: GuiState, st: Seq<Step>)
    requires
        update_spec(s, m, t, st),
    ensures
        stop_before_start(st),
{
    match m {
        Message::StartScreen => lemma_start_steps_ordered(s, mode_args(s, "screen"@), false, "screen"@),
        Message::StartAudio => lemma_start_steps_ordered(s, mode_args(s, "audio"@), false, "audio"@),
        Message::StartAmbient => lemma_start_steps_ordered(s, mode_args(s, "ambient"@), false, "ambient"@),
        Message::StartSunlight => {
            lemma_start_steps_ordered(s, mode_args(s, "sunlight"@), false, "sunlight"@);
        },
        Message::ApplyTheme(name) => {
            assert forall|i: int| 0 <= i < st.len() && #[trigger] st[i] is Spawn implies exists|j: int|
                0 <= j < i && st[j] is Stop by {
                assert(st[0] is Stop);
            }
        },
        Message::SetAudioMode(v) => lemma_saved_restart_ordered(GuiState { audio: AudioSettings { mode: v, ..s.audio }, ..s }, "audio"@),
        Message::SetAudioPalette(v) => lemma_saved_restart_ordered(GuiState { audio: AudioSettings { palette: v, ..s.audio }, ..s }, "audio"@),
        Message::ToggleAudioGradient(v) => lemma_saved_restart_ordered(GuiState { audio: AudioSettings { gradient: v, ..s.audio }, ..s }, "audio"@),
        Message::ToggleAmbientDim(v) => lemma_saved_restart_ordered(GuiState { ambient: AmbientConfig { dim: v, ..s.ambient }, ..s }, "ambient"@),
        Message::SetSunlightPreset(v) => lemma_saved_restart_ordered(GuiState { sunlight: SunlightConfig { preset: v, ..s.sunlight }, ..s }, "sunlight"@),
        Message::SetSunlightUseLocation(v) => lemma_saved_restart_ordered(GuiState { sunlight: SunlightConfig { use_location: v, ..s.sunlight }, ..s }, "sunlight"@),
        Message::SubmitSunlightCoords => lemma_saved_restart_ordered(s, "sunlight"@),
        Message::ToggleSunlightNightBrightnessOverride(on) => lemma_saved_restart_ordered(
            GuiState {
                sunlight: SunlightConfig {
                    night_brightness: if on {
                        Some(
                            match s.sunlight.night_brightness {
                                Some(b) => b,
                                None => 30u8,
                            },
                        )
                    } else {
                        None
                    },
                    ..s.sunlight
                },
                ..s
            },
            "sunlight"@,
        ),
        Message::ToggleMirror(v) => {
            let u = GuiState {
                mirror: v,
                screen: ScreenSettings { mirror: v, ..s.screen },
                audio: AudioSettings { mirror: v, ..s.audio },
                ..s
            };
            match s.active_mode {
                Some(md) => lemma_saved_restart_ordered(u, md@),
                None => {},
            }
        },
        Message::ApplyScreenSettings => lemma_saved_restart_ordered(s, "screen"@),
        Message::ApplyAudioSettings => lemma_saved_restart_ordered(s, "audio"@),
        Message::ApplyAmbientSettings => lemma_saved_restart_ordered(s, "ambient"@),
        Message::ApplySunlightSettings => lemma_saved_restart_ordered(s, "sunlight"@),
        _ => {},
    }
}

/// The segment counts never exceed the firmware limit: every message keeps
/// them within it.
#[verifier::spinoff_prover]
pub proof fn lemma_segments_stay_capped(s: GuiState, m: Message, t: GuiState, st: Seq<Step>)
    requires
        update_spec(s, m, t, st),
        segments_capped(s),
    ensures
        segments_capped(t),
{
}

/// The page shown is the page remembered: after navigating, the saved page
/// name reads back as the page.
pub proof fn lemma_page_remembered(s: GuiState, p: Page, t: GuiState, st: Seq<Step>)
    requires
        update_spec(s, Message::Navigate(p), t, st),
    ensures
        crate::gui::page_named(t.general.last_page@) == t.page,
        st == seq![Step::Save],
{
    crate::gui::lemma_page_name_roundtrip(p);
}

/// The decimal text of a number ends in a digit.
proof fn lemma_dec_text_ends_in_digit(v: nat)
    ensures
        dec_text(v).len() > 0,
        '0' <= dec_text(v).last() <= '9',
    decreases v,
{
    let d = (v % 10) as int;
    assert(crate::text::digit_char(d) as int == d + 48);
    if v >= 10 {
        lemma_dec_text_ends_in_digit(v / 10);
    }
}

/// Starting the ambient mode passes every ambient setting to the spawned
/// command line: it stops the running process, then spawns `ambient` for the
/// selected device with `--brightness` and the brightness, with `--dim`
/// exactly when dimming is on and `--mirror` exactly when mirroring is on.
pub proof fn lemma_ambient_start_args(s: GuiState, t: GuiState, st: Seq<Step>)
    requires
        update_spec(s, Message::StartAmbient, t, st),
        s.device is Some,
    ensures
        st.len() == 2,
        st[0] is Stop,
        st[1] matches Step::Spawn(args, ip, theme, name) && {
            &&& ip == s.device->0.ip@
            &&& !theme
            &&& args[0] == "ambient"@
            &&& args[1] == "--brightness"@
            &&& args[2] == dec_text(s.ambient.brightness as nat)
            &&& (args.contains("--dim"@) <==> s.ambient.dim)
            &&& (args.contains("--mirror"@) <==> s.mirror)
        },
{
    reveal_strlit("ambient");
    reveal_strlit("screen");
    reveal_strlit("audio");
    reveal_strlit("--brightness");
    reveal_strlit("--dim");
    reveal_strlit("--mirror");
    let b = dec_text(s.ambient.brightness as nat);
    lemma_dec_text_ends_in_digit(s.ambient.brightness as nat);
    assert("ambient"@[0] != "screen"@[0]);
    assert("ambient"@.len() != "audio"@.len());
    let base = mode_args(s, "ambient"@);
    assert(base == seq!["ambient"@, "--brightness"@, b] + (if s.ambient.dim {
        seq!["--dim"@]
    } else {
        Seq::empty()
    }));
    let args = with_mirror(s, base);
    let d = s.device->0;
    assert(st == seq![Step::Stop] + seq![Step::Spawn(args, d.ip@, false, "ambient"@)]);
    assert(st[1] == Step::Spawn(args, d.ip@, false, "ambient"@));
    assert(b.last() != "--dim"@.last() && b.last() != "--mirror"@.last());
    assert(b != "--dim"@ && b != "--mirror"@);
    assert("ambient"@[0] != "--dim"@[0] && "ambient"@[0] != "--mirror"@[0]);
    assert("--brightness"@.len() != "--dim"@.len() && "--brightness"@[2] != "--mirror"@[2]);
    assert("--dim"@.len() != "--mirror"@.len());
    assert(args.len() == 3 + (if s.ambient.dim { 1int } else { 0 }) + (if s.mirror { 1int } else { 0 }));
    assert(args[0] == "ambient"@ && args[1] == "--brightness"@ && args[2] == b);
    if s.ambient.dim {
        assert(args[3] == "--dim"@);
    }
    if s.mirror {
        assert(args[args.len() - 1] == "--mirror"@);
    }
    assert(args.contains("--dim"@) ==> s.ambient.dim) by {
        if args.contains("--dim"@) {
            let i = choose|i: int| 0 <= i < args.len() && args[i] == "--dim"@;
            if !s.ambient.dim {
                assert(0 <= i < 3 || (s.mirror && i == 3));
            }
        }
    }
    assert(args.contains("--mirror"@) ==> s.mirror) by {
        if args.contains("--mirror"@) {
            let i = choose|i: int| 0 <= i < args.len() && args[i] == "--mirror"@;
            if !s.mirror {
                assert(0 <= i < 3 || (s.ambient.dim && i == 3));
            }
        }
    }
}

} // verus!
