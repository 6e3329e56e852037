//! Command-line value types: the visualisation choices as the command line
//! names them and as the audio engine knows them, the ambient arguments, and
//! the checked segment counts.

use vstd::prelude::*;

use crate::address::dec_value;
use crate::sunlight::{all_digits, lemma_dec_prefix_le, unsigned_part};
use crate::text::{dec_text, push_decimal, push_str};

verus! {

/// Visualisation mode as chosen on the command line.
#[derive(Debug, Clone, Copy, PartialEq, Eq)]
pub enum CliVisMode {
    Energy,
    Frequency,
    Beat,
    Drop,
}

/// Colour palette as chosen on the command line.
#[derive(Debug, Clone, Copy, PartialEq, Eq)]
pub enum CliPalette {
    Fire,
    Ocean,
    Forest,
    Neon,
    Ice,
    Sunset,
    Rainbow,
}

/// Sunlight preset as chosen on the command line.
#[derive(Debug, Clone, Copy, PartialEq, Eq)]
pub enum CliSunlightPreset {
    Coastal,
    Arctic,
    Ember,
    Simple,
}

/// Visualisation algorithm of the audio engine.
#[derive(Debug, Clone, Copy, PartialEq, Eq)]
pub enum VisMode {
    Energy,
    Frequency,
    Beat,
    Drop,
    Laser,
}

/// Colour palette of the audio engine.
#[derive(Debug, Clone, Copy, PartialEq, Eq)]
pub enum Palette {
    Fire,
    Ocean,
    Forest,
    Neon,
    Ice,
    Sunset,
    Rainbow,
}

/// The engine mode a command-line mode stands for.
pub open spec fn vis_mode_of(m: CliVisMode) -> VisMode {
    match m {
        CliVisMode::Energy => VisMode::Energy,
        CliVisMode::Frequency => VisMode::Frequency,
        CliVisMode::Beat => VisMode::Beat,
        CliVisMode::Drop => VisMode::Drop,
    }
}

/// The engine palette a command-line palette stands for.
pub open spec fn palette_of(p: CliPalette) -> Palette {
    match p {
        CliPalette::Fire => Palette::Fire,
        CliPalette::Ocean => Palette::Ocean,
        CliPalette::Forest => Palette::Forest,
        CliPalette::Neon => Palette::Neon,
        CliPalette::Ice => Palette::Ice,
        CliPalette::Sunset => Palette::Sunset,
        CliPalette::Rainbow => Palette::Rainbow,
    }
}

impl From<CliVisMode> for VisMode {
    fn from(m: CliVisMode) -> (r: VisMode) {
        match m {
            CliVisMode::Energy => VisMode::Energy,
            CliVisMode::Frequency => VisMode::Frequency,
            CliVisMode::Beat => VisMode::Beat,
            CliVisMode::Drop => VisMode::Drop,
        }
    }
}

impl vstd::std_specs::convert::FromSpecImpl<CliVisMode> for VisMode {
    open spec fn obeys_from_spec() -> bool {
        true
    }

    open spec fn from_spec(m: CliVisMode) -> VisMode {
        vis_mode_of(m)
    }
}

impl From<CliPalette> for Palette {
    fn from(p: CliPalette) -> (r: Palette) {
        match p {
            CliPalette::Fire => Palette::Fire,
            CliPalette::Ocean => Palette::Ocean,
            CliPalette::Forest => Palette::Forest,
            CliPalette::Neon => Palette::Neon,
            CliPalette::Ice => Palette::Ice,
            CliPalette::Sunset => Palette::Sunset,
            CliPalette::Rainbow => Palette::Rainbow,
        }
    }
}

impl vstd::std_specs::convert::FromSpecImpl<CliPalette> for Palette {
    open spec fn obeys_from_spec() -> bool {
        true
    }

    open spec fn from_spec(p: CliPalette) -> Palette {
        palette_of(p)
    }
}

/// Every command-line mode stands for a different engine mode, and the
/// engine's laser mode cannot be chosen on the command line.
pub proof fn lemma_vis_mode_injective(a: CliVisMode, b: CliVisMode)
    ensures
        vis_mode_of(a) == vis_mode_of(b) ==> a == b,
        vis_mode_of(a) != VisMode::Laser,
{
}

/// Every command-line palette stands for a different engine palette, and
/// every engine palette can be chosen.
pub proof fn lemma_palette_bijective(a: CliPalette, b: CliPalette, p: Palette)
    ensures
        palette_of(a) == palette_of(b) ==> a == b,
        exists|c: CliPalette| palette_of(c) == p,
{
    match p {
        Palette::Fire => assert(palette_of(CliPalette::Fire) == p),
        Palette::Ocean => assert(palette_of(CliPalette::Ocean) == p),
        Palette::Forest => assert(palette_of(CliPalette::Forest) == p),
        Palette::Neon => assert(palette_of(CliPalette::Neon) == p),
        Palette::Ice => assert(palette_of(CliPalette::Ice) == p),
        Palette::Sunset => assert(palette_of(CliPalette::Sunset) == p),
        Palette::Rainbow => assert(palette_of(CliPalette::Rainbow) == p),
    }
}

/// Each command-line mode chooses the engine mode of the same name.
pub proof fn lemma_vis_mode_same_name(m: CliVisMode)
    ensures
        m == CliVisMode::Energy ==> vis_mode_of(m) == VisMode::Energy,
        m == CliVisMode::Frequency ==> vis_mode_of(m) == VisMode::Frequency,
        m == CliVisMode::Beat ==> vis_mode_of(m) == VisMode::Beat,
        m == CliVisMode::Drop ==> vis_mode_of(m) == VisMode::Drop,
{
}

/// Each command-line palette chooses the engine palette of the same name.
pub proof fn lemma_palette_same_name(p: CliPalette)
    ensures
        p == CliPalette::Fire ==> palette_of(p) == Palette::Fire,
        p == CliPalette::Ocean ==> palette_of(p) == Palette::Ocean,
        p == CliPalette::Forest ==> palette_of(p) == Palette::Forest,
        p == CliPalette::Neon ==> palette_of(p) == Palette::Neon,
        p == CliPalette::Ice ==> palette_of(p) == Palette::Ice,
        p == CliPalette::Sunset ==> palette_of(p) == Palette::Sunset,
        p == CliPalette::Rainbow ==> palette_of(p) == Palette::Rainbow,
{
}

/// Arguments of the ambient mode.
#[derive(Debug, Clone)]
pub struct AmbientArgs {
    /// Which colour of the wallpaper theme to use.
    pub color: String,
    /// Strip brightness 1-100.
    pub brightness: u8,
    /// Use the dim variant of the colour.
    pub dim: bool,
    /// Verbose output.
    pub verbose: bool,
}

impl Default for AmbientArgs {
    fn default() -> (a: Self)
        ensures
            a.color@ == "primary"@,
            a.brightness == 80,
            !a.dim,
            !a.verbose,
    {
        AmbientArgs { color: String::from_str("primary"), brightness: 80, dim: false, verbose: false }
    }
}

// ── Segment counts ──────────────────────────────────────────────────────────

/// The `usize` written by `s`, as `str::parse::<usize>` reads it: an
/// optional '+' then one or more ASCII digits, with a value that fits.
pub open spec fn parse_usize(s: Seq<char>) -> Option<usize> {
    let d = unsigned_part(s);
    if d.len() > 0 && all_digits(d) && dec_value(d) <= usize::MAX {
        Some(dec_value(d) as usize)
    } else {
        None
    }
}

/// The result of reading a segment count that must lie in `1..=max`: the
/// count, or the message saying what is wrong.
pub open spec fn read_segments(s: Seq<char>, max: usize) -> Result<usize, Seq<char>> {
    match parse_usize(s) {
        None => Err("invalid number '"@ + s + "'"@),
        Some(v) => if 1 <= v <= max {
            Ok(v)
        } else {
            Err("segments must be 1-"@ + dec_text(max as nat) + ", got "@ + dec_text(v as nat))
        },
    }
}

fn parse_usize_text(s: &str) -> (res: Option<usize>)
    ensures
        res == parse_usize(s@),
{
    let n = s.unicode_len();
    let mut i: usize = 0;
    if n > 0 && s.get_char(0) == '+' {
        i = 1;
    }
    let ghost d = unsigned_part(s@);
    assert(d =~= s@.subrange(i as int, n as int));
    if i == n {
        return None;
    }
    let start = i;
    let mut v: usize = 0;
    while i < n
        invariant
            start <= i <= n,
            n == s@.len(),
            d == unsigned_part(s@),
            d == s@.subrange(start as int, n as int),
            forall|k: int| 0 <= k < i - start ==> #[trigger] crate::address::is_digit(d[k]),
            v == dec_value(d.subrange(0, i - start)),
        decreases n - i,
    {
        let c = s.get_char(i);
        if !('0' <= c && c <= '9') {
            assert(!crate::address::is_digit(d[i - start]));
            return None;
        }
        assert(d.subrange(0, i - start + 1).drop_last() =~= d.subrange(0, i - start));
        let digit: usize = (c as u32 - '0' as u32) as usize;
        let next = match v.checked_mul(10) {
            Some(t) => t.checked_add(digit),
            None => None,
        };
        match next {
            Some(t) => {
                v = t;
                i = i + 1;
            },
            None => {
                proof {
                    assert(dec_value(d.subrange(0, i - start + 1)) > usize::MAX);
                    if all_digits(d) {
                        lemma_dec_prefix_le(d, i - start + 1);
                    }
                }
                return None;
            },
        }
    }
    assert(d.subrange(0, d.len() as int) =~= d);
    Some(v)
}

/// Reads a segment count that must lie in `1..=max`, or gives the message
/// saying what is wrong.
pub fn parse_segments(s: &str, max: usize) -> (res: Result<usize, String>)
    ensures
        match read_segments(s@, max) {
            Ok(v) => res == Ok::<usize, String>(v),
            Err(m) => res matches Err(e) && e@ == m,
        },
{
    match parse_usize_text(s) {
        None => {
            let mut m = String::new();
            push_str(&mut m, "invalid number '");
            push_str(&mut m, s);
            push_str(&mut m, "'");
            assert(m@ =~= "invalid number '"@ + s@ + "'"@);
            Err(m)
        },
        Some(v) => {
            if 1 <= v && v <= max {
                Ok(v)
            } else {
                let mut m = String::new();
                push_str(&mut m, "segments must be 1-");
                push_decimal(&mut m, max as u64);
                push_str(&mut m, ", got ");
                push_decimal(&mut m, v as u64);
                assert(m@ =~= "segments must be 1-"@ + dec_text(max as nat) + ", got "@ + dec_text(
                    v as nat,
                ));
                Err(m)
            }
        },
    }
}

/// Reads a DreamView segment count: 1 to 127, so that a mirrored strip stays
/// within one packet.
pub fn parse_segments_127(s: &str) -> (res: Result<usize, String>)
    ensures
        match read_segments(s@, 127) {
            Ok(v) => res == Ok::<usize, String>(v),
            Err(m) => res matches Err(e) && e@ == m,
        },
{
    parse_segments(s, 127)
}

/// Reads the segment count of an animated theme: 1 to 75.
pub fn parse_segments_75(s: &str) -> (res: Result<usize, String>)
    ensures
        match read_segments(s@, 75) {
            Ok(v) => res == Ok::<usize, String>(v),
            Err(m) => res matches Err(e) && e@ == m,
        },
{
    parse_segments(s, 75)
}

/// Every segment count the command line accepts still fits one DreamView
/// packet when mirrored: at most 127 (or 75 for themes) doubled stays
/// within the 255 colours of a packet.
pub proof fn lemma_mirrored_counts_fit(s: Seq<char>)
    ensures
        read_segments(s, 127) matches Ok(n) ==> 2 * n <= crate::protocol::MAX_PACKET_SEGMENTS,
        read_segments(s, 75) matches Ok(n) ==> 2 * n <= crate::protocol::MAX_PACKET_SEGMENTS,
{
}

// ── Command values ──────────────────────────────────────────────────────────

/// Checks a brightness given on the command line: 1 to 100.
pub fn check_brightness(value: u8) -> (res: Result<(), &'static str>)
    ensures
        res is Ok <==> 1 <= value <= 100,
        res matches Err(m) ==> m@ == "Brightness must be 1-100"@,
{
    if 1 <= value && value <= 100 {
        Ok(())
    } else {
        Err("Brightness must be 1-100")
    }
}

/// Checks a colour temperature given on the command line: 2000 to 9000 K.
pub fn check_kelvin(kelvin: u16) -> (res: Result<(), &'static str>)
    ensures
        res is Ok <==> 2000 <= kelvin <= 9000,
        res matches Err(m) ==> m@ == "Color temperature must be 2000-9000K"@,
{
    if 2000 <= kelvin && kelvin <= 9000 {
        Ok(())
    } else {
        Err("Color temperature must be 2000-9000K")
    }
}

} // verus!
