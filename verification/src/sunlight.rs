//! The day/night schedule: which phase of the solar cycle a time of day is
//! in, given sunrise, sunset and the length of the transitions around them,
//! and the `HH:MM` times the schedule is given in.
//!
//! All windows are taken on a circular 24-hour clock, so a transition may
//! straddle midnight.

use vstd::prelude::*;

use crate::address::{dec_value, is_digit};
use crate::text::{dec_text, push_decimal, push_str};

verus! {

/// Minutes in a day.
pub const MINUTES_PER_DAY: i32 = 1440;

/// A time of day with minute precision.
#[derive(Debug, Clone, Copy, PartialEq, Eq)]
pub struct TimeOfDay {
    pub hour: u32,
    pub minute: u32,
}

impl TimeOfDay {
    /// Hour 0–23 and minute 0–59.
    pub open spec fn valid(self) -> bool {
        self.hour < 24 && self.minute < 60
    }

    /// The time `hour:minute`, if it exists.
    pub fn new(hour: u32, minute: u32) -> (t: Option<TimeOfDay>)
        ensures
            hour < 24 && minute < 60 <==> t is Some,
            t matches Some(x) ==> x.hour == hour && x.minute == minute,
    {
        if hour < 24 && minute < 60 {
            Some(TimeOfDay { hour, minute })
        } else {
            None
        }
    }
}

/// Minutes since midnight.
pub open spec fn minute_of(t: TimeOfDay) -> int {
    t.hour * 60 + t.minute
}

fn minutes_of_day(t: TimeOfDay) -> (m: i32)
    requires
        t.valid(),
    ensures
        m == minute_of(t),
        0 <= m < 1440,
{
    (t.hour * 60 + t.minute) as i32
}

/// How far into a window a time is: `offset` minutes of `width`, with
/// `offset < width`; the fraction is `offset / width`.
#[derive(Debug, Clone, Copy, PartialEq, Eq)]
pub struct Progress {
    pub offset: u32,
    pub width: u32,
}

/// The phase of the solar cycle.
#[derive(Debug, Clone, Copy, PartialEq, Eq)]
pub enum SolarPhase {
    Day,
    Night,
    /// Dawn transition: from full night (progress 0) to full day.
    Dawn(Progress),
    /// Dusk transition: from full day (progress 0) to full night.
    Dusk(Progress),
}

/// If `now` lies in the circular window `[start, end)`, how far into it.
pub open spec fn window(now: int, start: int, end: int) -> Option<Progress> {
    let width = (end - start) % 1440;
    let offset = (now - start) % 1440;
    if width == 0 || offset >= width {
        None
    } else {
        Some(Progress { offset: offset as u32, width: width as u32 })
    }
}

/// Half the transition, as the original computes it: the minutes converted
/// to `i32` (wrapping), then halved rounding toward zero.
pub open spec fn half_transition(transition_mins: u32) -> int {
    let x = (transition_mins as i32) as int;
    if x >= 0 { x / 2 } else { -((-x) / 2) }
}

/// The solar phase at `now`: dawn within half a transition of sunrise, dusk
/// within half a transition of sunset (dawn taking precedence), day from the
/// end of dawn to the start of dusk, night otherwise.
pub open spec fn phase(now: int, sunrise: int, sunset: int, transition_mins: u32) -> SolarPhase {
    let half = half_transition(transition_mins);
    let rise_start = (sunrise - half) % 1440;
    let rise_end = (sunrise + half) % 1440;
    let set_start = (sunset - half) % 1440;
    let set_end = (sunset + half) % 1440;
    match window(now, rise_start, rise_end) {
        Some(p) => SolarPhase::Dawn(p),
        None => match window(now, set_start, set_end) {
            Some(p) => SolarPhase::Dusk(p),
            None => if window(now, rise_end, set_start) is Some {
                SolarPhase::Day
            } else {
                SolarPhase::Night
            },
        },
    }
}

fn rem_day(x: i32) -> (r: i32)
    ensures
        r == x % 1440,
        0 <= r < 1440,
{
    let m = x % MINUTES_PER_DAY;
    if m < 0 { m + MINUTES_PER_DAY } else { m }
}

/// Progress through the circular window `[start, end)`, if `now` is in it.
fn window_progress(now: i32, start: i32, end: i32) -> (res: Option<Progress>)
    requires
        0 <= now < 1440,
        0 <= start < 1440,
        0 <= end < 1440,
    ensures
        res == window(now as int, start as int, end as int),
{
    let width = rem_day(end - start);
    if width == 0 {
        return None;
    }
    let offset = rem_day(now - start);
    if offset < width {
        Some(Progress { offset: offset as u32, width: width as u32 })
    } else {
        None
    }
}

/// The solar phase at `now` for the given sunrise, sunset and transition
/// length in minutes.
pub fn solar_phase(
    now: TimeOfDay,
    sunrise: TimeOfDay,
    sunset: TimeOfDay,
    transition_mins: u32,
) -> (p: SolarPhase)
    requires
        now.valid(),
        sunrise.valid(),
        sunset.valid(),
    ensures
        p == phase(minute_of(now), minute_of(sunrise), minute_of(sunset), transition_mins),
{
    let t = transition_mins as i32;
    let half: i32 = t / 2;
    assert(half == half_transition(transition_mins));
    let now_m = minutes_of_day(now);
    let sunrise_m = minutes_of_day(sunrise);
    let sunset_m = minutes_of_day(sunset);
    let sunrise_start = rem_day(sunrise_m - half);
    let sunrise_end = rem_day(sunrise_m + half);
    let sunset_start = rem_day(sunset_m - half);
    let sunset_end = rem_day(sunset_m + half);
    if let Some(p) = window_progress(now_m, sunrise_start, sunrise_end) {
        SolarPhase::Dawn(p)
    } else if let Some(p) = window_progress(now_m, sunset_start, sunset_end) {
        SolarPhase::Dusk(p)
    } else if window_progress(now_m, sunrise_end, sunset_start).is_some() {
        SolarPhase::Day
    } else {
        SolarPhase::Night
    }
}

// ── Laws ────────────────────────────────────────────────────────────────────

/// Any transition progress is a proper fraction: `offset < width`.
pub proof fn lemma_progress_proper(now: int, sunrise: int, sunset: int, transition_mins: u32)
    ensures
        match phase(now, sunrise, sunset, transition_mins) {
            SolarPhase::Dawn(p) => p.offset < p.width,
            SolarPhase::Dusk(p) => p.offset < p.width,
            _ => true,
        },
{
}

/// At sunrise itself the strip is exactly half-way through dawn, for any even
/// transition shorter than a day.
/// `x` taken modulo a day, when `k` whole days bring it into `0..1440`.
proof fn lemma_mod_day(x: int, k: int)
    requires
        0 <= x - 1440 * k < 1440,
    ensures
        x % 1440 == x - 1440 * k,
{
    vstd::arithmetic::div_mod::lemma_mod_multiples_vanish(k, x - 1440 * k, 1440);
    vstd::arithmetic::div_mod::lemma_small_mod((x - 1440 * k) as nat, 1440);
}

/// At sunrise itself the strip is exactly half-way through dawn, for any even
/// transition shorter than a day.
pub proof fn lemma_sunrise_is_mid_dawn(sunrise: int, sunset: int, transition_mins: u32)
    requires
        0 <= sunrise < 1440,
        0 < transition_mins < 1440,
        transition_mins % 2 == 0,
    ensures
        phase(sunrise, sunrise, sunset, transition_mins) == SolarPhase::Dawn(
            Progress { offset: (transition_mins / 2) as u32, width: transition_mins },
        ),
{
    let half = half_transition(transition_mins);
    assert((transition_mins as i32) as int == transition_mins as int);
    assert(half == transition_mins / 2);
    assert(0 < half < 720);
    let ks: int = if sunrise - half >= 0 { 0 } else { -1 };
    let ke: int = if sunrise + half < 1440 { 0 } else { 1 };
    lemma_mod_day(sunrise - half, ks);
    lemma_mod_day(sunrise + half, ke);
    let rs = (sunrise - half) % 1440;
    let re = (sunrise + half) % 1440;
    lemma_mod_day(re - rs, ks - ke);
    lemma_mod_day(sunrise - rs, ks);
    assert((re - rs) % 1440 == 2 * half);
    assert((sunrise - rs) % 1440 == half);
    assert(window(sunrise, rs, re) == Some(
        Progress { offset: half as u32, width: (2 * half) as u32 },
    ));
}

/// Without a transition there is no dawn or dusk: it is day exactly from
/// sunrise up to sunset (circularly) and night otherwise.
pub proof fn lemma_no_transition(now: int, sunrise: int, sunset: int)
    requires
        0 <= now < 1440,
        0 <= sunrise < 1440,
        0 <= sunset < 1440,
    ensures
        phase(now, sunrise, sunset, 0) == if window(now, sunrise, sunset) is Some {
            SolarPhase::Day
        } else {
            SolarPhase::Night
        },
{
    assert(half_transition(0) == 0);
    assert(sunrise % 1440 == sunrise);
    assert(sunset % 1440 == sunset);
}

// ── HH:MM times ─────────────────────────────────────────────────────────────

/// `s` without one leading '+' sign, if it has one.
pub open spec fn unsigned_part(s: Seq<char>) -> Seq<char> {
    if s.len() > 0 && s[0] == '+' { s.drop_first() } else { s }
}

/// Every character of `d` is an ASCII digit.
pub open spec fn all_digits(d: Seq<char>) -> bool {
    forall|i: int| 0 <= i < d.len() ==> #[trigger] is_digit(d[i])
}

/// The `u32` written by `s`, as `str::parse::<u32>` reads it: an optional
/// '+' then one or more ASCII digits, with a value that fits.
pub open spec fn parse_u32(s: Seq<char>) -> Option<u32> {
    let d = unsigned_part(s);
    if d.len() > 0 && all_digits(d) && dec_value(d) <= u32::MAX {
        Some(dec_value(d) as u32)
    } else {
        None
    }
}

/// Index of the first ':' in `s`, if any.
pub open spec fn first_colon(s: Seq<char>) -> Option<int> {
    if exists|i: int| 0 <= i < s.len() && s[i] == ':' {
        Some(choose|i: int| 0 <= i < s.len() && s[i] == ':' && forall|j: int| 0 <= j < i ==> s[j] != ':')
    } else {
        None
    }
}

/// Two-digit zero padded decimal text (more digits when needed).
pub open spec fn dec2_text(v: nat) -> Seq<char> {
    if v < 10 { seq!['0'] + dec_text(v) } else { dec_text(v) }
}

/// The result of reading `HH:MM` text: the time, or the error message.
pub open spec fn read_time(s: Seq<char>) -> Result<TimeOfDay, Seq<char>> {
    match first_colon(s) {
        None => Err("invalid time '"@ + s + "': expected HH:MM"@),
        Some(c) => {
            let h_str = s.subrange(0, c);
            let m_str = s.subrange(c + 1, s.len() as int);
            match parse_u32(h_str) {
                None => Err("invalid hour '"@ + h_str + "': expected HH:MM"@),
                Some(h) => match parse_u32(m_str) {
                    None => Err("invalid minute '"@ + m_str + "': expected HH:MM"@),
                    Some(m) => if h < 24 && m < 60 {
                        Ok(TimeOfDay { hour: h, minute: m })
                    } else {
                        Err(
                            "invalid time "@ + dec2_text(h as nat) + ":"@ + dec2_text(m as nat)
                                + ": hour 0-23, minute 0-59"@,
                        )
                    },
                },
            }
        },
    }
}

/// The two-digit text of a number below 100: two digits that read back as
/// the number.
proof fn lemma_dec2(v: nat)
    requires
        v < 100,
    ensures
        dec2_text(v).len() == 2,
        all_digits(dec2_text(v)),
        dec_value(dec2_text(v)) == v,
{
    let t = dec2_text(v);
    assert forall|d: int| 0 <= d < 10 implies (#[trigger] crate::text::digit_char(d)) as int == d + 48 by {}
    if v < 10 {
        assert(dec_text(v) == seq![crate::text::digit_char(v as int)]);
        assert(t == seq!['0', crate::text::digit_char(v as int)]);
        assert(t.drop_last() =~= seq!['0']);
        assert(seq!['0'].drop_last() =~= Seq::<char>::empty());
        assert(dec_value(seq!['0']) == 0) by {
            reveal_with_fuel(dec_value, 2);
        }
        assert(dec_value(t) == dec_value(t.drop_last()) * 10 + (t.last() as int - '0' as int));
    } else {
        let hi = v / 10;
        let lo = v % 10;
        assert(dec_text(hi) == seq![crate::text::digit_char(hi as int)]);
        assert(t =~= seq![crate::text::digit_char(hi as int), crate::text::digit_char(lo as int)]);
        assert(t.drop_last() =~= seq![crate::text::digit_char(hi as int)]);
        assert(t.drop_last().drop_last() =~= Seq::<char>::empty());
        assert(dec_value(t.drop_last()) == hi) by {
            reveal_with_fuel(dec_value, 2);
            assert(t.drop_last().last() == crate::text::digit_char(hi as int));
        }
        assert(dec_value(t) == dec_value(t.drop_last()) * 10 + (t.last() as int - '0' as int));
    }
    assert forall|i: int| 0 <= i < t.len() implies #[trigger] is_digit(t[i]) by {}
}

/// A time written as `HH:MM` reads back as the same time.
pub proof fn lemma_time_text_roundtrip(t: TimeOfDay)
    requires
        t.valid(),
    ensures
        read_time(dec2_text(t.hour as nat) + seq![':'] + dec2_text(t.minute as nat)) == Ok::<TimeOfDay, Seq<char>>(t),
{
    let a = dec2_text(t.hour as nat);
    let b = dec2_text(t.minute as nat);
    lemma_dec2(t.hour as nat);
    lemma_dec2(t.minute as nat);
    let s = a + seq![':'] + b;
    assert(s.len() == 5);
    assert(s[2] == ':');
    assert(s[0] != ':' && s[1] != ':') by {
        assert(is_digit(a[0]) && is_digit(a[1]));
        assert(s[0] == a[0] && s[1] == a[1]);
    }
    let c = choose|i: int| 0 <= i < s.len() && s[i] == ':' && forall|j: int| 0 <= j < i ==> s[j] != ':';
    assert(0 <= 2 < s.len() && s[2] == ':' && forall|j: int| 0 <= j < 2 ==> s[j] != ':');
    assert(c == 2) by {
        if c < 2 {
            assert(s[c] != ':');
        }
        if c > 2 {
            assert(s[2] != ':');
        }
    }
    assert(first_colon(s) == Some(2int));
    assert(s.subrange(0, 2) =~= a);
    assert(s.subrange(3, 5) =~= b);
    assert(a[0] != '+') by {
        assert(is_digit(a[0]));
    }
    assert(b[0] != '+') by {
        assert(is_digit(b[0]));
    }
    assert(unsigned_part(a) == a);
    assert(unsigned_part(b) == b);
}

/// Reads a `u32` from `s[from..to]` by the rules of `str::parse::<u32>`.
fn parse_u32_range(s: &str, from: usize, to: usize) -> (res: Option<u32>)
    requires
        from <= to <= s@.len(),
    ensures
        res == parse_u32(s@.subrange(from as int, to as int)),
{
    let ghost t = s@.subrange(from as int, to as int);
    let mut i = from;
    if i < to && s.get_char(i) == '+' {
        i = i + 1;
    }
    let ghost d = unsigned_part(t);
    assert(d =~= s@.subrange(i as int, to as int));
    if i == to {
        return None;
    }
    let start = i;
    let mut v: u64 = 0;
    while i < to
        invariant
            start <= i <= to,
            to <= s@.len(),
            t == s@.subrange(from as int, to as int),
            d == unsigned_part(t),
            d == s@.subrange(start as int, to as int),
            forall|k: int| 0 <= k < i - start ==> #[trigger] is_digit(d[k]),
            v == dec_value(d.subrange(0, i - start)),
            v <= u32::MAX,
        decreases to - i,
    {
        let c = s.get_char(i);
        if !('0' <= c && c <= '9') {
            assert(!is_digit(d[i - start]));
            assert(!all_digits(d));
            assert(parse_u32(t) is None);
            return None;
        }
        assert(d.subrange(0, i - start + 1).drop_last() =~= d.subrange(0, i - start));
        v = v * 10 + (c as u64 - '0' as u64);
        i = i + 1;
        if v > u32::MAX as u64 {
            proof {
                if all_digits(d) {
                    lemma_dec_prefix_le(d, i - start);
                }
                assert(parse_u32(t) is None);
            }
            return None;
        }
    }
    assert(d.subrange(0, d.len() as int) =~= d);
    Some(v as u32)
}

pub(crate) proof fn lemma_dec_prefix_le(d: Seq<char>, k: int)
    requires
        0 <= k <= d.len(),
        forall|i: int| 0 <= i < d.len() ==> #[trigger] is_digit(d[i]),
    ensures
        dec_value(d.subrange(0, k)) <= dec_value(d),
    decreases d.len(),
{
    if k < d.len() {
        let e = d.drop_last();
        assert(e.subrange(0, k) =~= d.subrange(0, k));
        assert forall|i: int| 0 <= i < e.len() implies #[trigger] is_digit(e[i]) by {
            assert(e[i] == d[i]);
        }
        lemma_dec_prefix_le(e, k);
        lemma_dec_nonneg(e);
        assert(is_digit(d[d.len() - 1]));
    } else {
        assert(d.subrange(0, k) =~= d);
    }
}

pub(crate) proof fn lemma_dec_nonneg(d: Seq<char>)
    requires
        forall|i: int| 0 <= i < d.len() ==> #[trigger] is_digit(d[i]),
    ensures
        dec_value(d) >= 0,
    decreases d.len(),
{
    if d.len() > 0 {
        let e = d.drop_last();
        assert forall|i: int| 0 <= i < e.len() implies #[trigger] is_digit(e[i]) by {
            assert(e[i] == d[i]);
        }
        lemma_dec_nonneg(e);
        assert(is_digit(d[d.len() - 1]));
    }
}

fn push_dec2(out: &mut String, v: u32)
    ensures
        final(out)@ == old(out)@ + dec2_text(v as nat),
{
    if v < 10 {
        out.push('0');
        push_decimal(out, v as u64);
        assert(final(out)@ =~= old(out)@ + dec2_text(v as nat));
    } else {
        push_decimal(out, v as u64);
    }
}

/// Parses `HH:MM` (hours 0–23, minutes 0–59; each part as `str::parse::<u32>`
/// reads it), or returns the message explaining what is wrong.
pub fn parse_time(s: &str) -> (res: Result<TimeOfDay, String>)
    ensures
        match read_time(s@) {
            Ok(t) => res == Ok::<TimeOfDay, String>(t),
            Err(m) => res matches Err(e) && e@ == m,
        },
{
    let n = s.unicode_len();
    let mut i: usize = 0;
    while i < n && s.get_char(i) != ':'
        invariant
            n == s@.len(),
            i <= n,
            forall|j: int| 0 <= j < i ==> s@[j] != ':',
        decreases n - i,
    {
        i = i + 1;
    }
    if i == n {
        assert(first_colon(s@) is None);
        let mut m = String::new();
        push_str(&mut m, "invalid time '");
        push_str(&mut m, s);
        push_str(&mut m, "': expected HH:MM");
        return Err(m);
    }
    proof {
        assert(s@[i as int] == ':');
        let c = choose|k: int| 0 <= k < s@.len() && s@[k] == ':' && forall|j: int| 0 <= j < k ==> s@[j] != ':';
        assert(c == i) by {
            if c < i {
                assert(s@[c] != ':');
            } else if c > i {
                assert(s@[i as int] != ':');
            }
        }
        assert(first_colon(s@) == Some(i as int));
    }
    let h = parse_u32_range(s, 0, i);
    match h {
        None => {
            let mut m = String::new();
            push_str(&mut m, "invalid hour '");
            push_str(&mut m, s.substring_char(0, i));
            push_str(&mut m, "': expected HH:MM");
            Err(m)
        },
        Some(h) => {
            let mm = parse_u32_range(s, i + 1, n);
            match mm {
                None => {
                    let mut m = String::new();
                    push_str(&mut m, "invalid minute '");
                    push_str(&mut m, s.substring_char(i + 1, n));
                    push_str(&mut m, "': expected HH:MM");
                    Err(m)
                },
                Some(mv) => {
                    if h < 24 && mv < 60 {
                        Ok(TimeOfDay { hour: h, minute: mv })
                    } else {
                        let mut m = String::new();
                        push_str(&mut m, "invalid time ");
                        push_dec2(&mut m, h);
                        push_str(&mut m, ":");
                        push_dec2(&mut m, mv);
                        push_str(&mut m, ": hour 0-23, minute 0-59");
                        Err(m)
                    }
                },
            }
        },
    }
}

// ── Where the times come from ───────────────────────────────────────────────

/// Where the sunrise and sunset of the schedule come from.
#[derive(Debug, Clone, Copy, PartialEq, Eq)]
pub enum TimeSource {
    /// Both times were given by hand.
    Manual(TimeOfDay, TimeOfDay),
    /// The times are computed from the coordinates.
    Solar,
}

/// The message when neither the times nor the coordinates are complete.
pub open spec fn no_location_message() -> Seq<char> {
    "no location info: provide --lat/--lon or --sunrise/--sunset"@
}

/// The source of the schedule's times: both manual times when both are
/// given (each must read as a time), else the coordinates when both are
/// given, else an error.
pub open spec fn time_source(sunrise: Option<Seq<char>>, sunset: Option<Seq<char>>, has_coords: bool) -> Result<
    TimeSource,
    Seq<char>,
> {
    match (sunrise, sunset) {
        (Some(rise), Some(set)) => match read_time(rise) {
            Err(m) => Err(m),
            Ok(r) => match read_time(set) {
                Err(m) => Err(m),
                Ok(t) => Ok(TimeSource::Manual(r, t)),
            },
        },
        _ => if has_coords {
            Ok(TimeSource::Solar)
        } else {
            Err(no_location_message())
        },
    }
}

/// The view of an optional text.
pub open spec fn opt_view(s: Option<&str>) -> Option<Seq<char>> {
    match s {
        Some(t) => Some(t@),
        None => None,
    }
}

/// Decides where the schedule's times come from; `has_coords` tells
/// whether both latitude and longitude were given.
pub fn resolve_times(sunrise: Option<&str>, sunset: Option<&str>, has_coords: bool) -> (res: Result<
    TimeSource,
    String,
>)
    ensures
        match time_source(opt_view(sunrise), opt_view(sunset), has_coords) {
            Ok(src) => res == Ok::<TimeSource, String>(src),
            Err(m) => res matches Err(e) && e@ == m,
        },
{
    match (sunrise, sunset) {
        (Some(rise), Some(set)) => match parse_time(rise) {
            Err(m) => Err(m),
            Ok(r) => match parse_time(set) {
                Err(m) => Err(m),
                Ok(t) => Ok(TimeSource::Manual(r, t)),
            },
        },
        _ => if has_coords {
            Ok(TimeSource::Solar)
        } else {
            Err(String::from_str("no location info: provide --lat/--lon or --sunrise/--sunset"))
        },
    }
}

} // verus!
